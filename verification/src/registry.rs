//! Device registry: named devices owning MAC addresses, and the index from
//! uppercased MAC address to device name that the join looks up.

use vstd::prelude::*;

use crate::entries::{upsert, Entry};
use crate::json::{json_as_array, json_as_str, json_doc_of, json_get, json_rep, parse_json, JsonRep};
use crate::omap::OrderedIndex;
use crate::text::{to_upper, upper_seq};

verus! {

/// A known device: a display name and the MAC addresses it owns.
pub struct Device {
    pub name: String,
    pub macs: Vec<String>,
}

/// The abstract value of a device.
pub struct DeviceView {
    pub name: Seq<char>,
    pub macs: Seq<Seq<char>>,
}

impl View for Device {
    type V = DeviceView;

    open spec fn view(&self) -> DeviceView {
        DeviceView { name: self.name@, macs: self.macs@.map_values(|m: String| m@) }
    }
}

/// The error of a registry that cannot be loaded: text that is not valid
/// JSON, or valid JSON of the wrong shape.
#[derive(Debug)]
pub enum RegistryError {
    Syntax(String),
    Shape,
}

/// The text a JSON value holds, empty when it is not text.
pub open spec fn text_of(j: JsonRep) -> Seq<char> {
    match j {
        JsonRep::Text(t) => t,
        _ => Seq::empty(),
    }
}

/// The device one JSON value describes: a record with a `name` text field
/// and a `macs` field listing texts; anything else is no device.
pub open spec fn device_of_json(j: JsonRep) -> Option<DeviceView> {
    match j {
        JsonRep::Record(m) => {
            if m.contains_key("name"@) && m.contains_key("macs"@) {
                match (m["name"@], m["macs"@]) {
                    (JsonRep::Text(n), JsonRep::List(ms)) => {
                        if forall|i: int| 0 <= i < ms.len() ==> ms[i] is Text {
                            Some(
                                DeviceView {
                                    name: n,
                                    macs: ms.map_values(|x: JsonRep| text_of(x)),
                                },
                            )
                        } else {
                            None
                        }
                    },
                    _ => None,
                }
            } else {
                None
            }
        },
        _ => None,
    }
}

/// The device a JSON value describes, or an empty one where it describes
/// none.
pub open spec fn device_or_empty(j: JsonRep) -> DeviceView {
    match device_of_json(j) {
        Some(d) => d,
        None => DeviceView { name: Seq::empty(), macs: Seq::empty() },
    }
}

/// The registry one JSON document describes: a list of devices, each well
/// shaped; anything else — and any list with one ill-shaped record — is no
/// registry.
pub open spec fn registry_of_json(j: JsonRep) -> Option<Seq<DeviceView>> {
    match j {
        JsonRep::List(items) => {
            if forall|i: int| 0 <= i < items.len() ==> device_of_json(items[i]) is Some {
                Some(items.map_values(|x: JsonRep| device_or_empty(x)))
            } else {
                None
            }
        },
        _ => None,
    }
}

/// Decodes one device record, following `device_of_json`.
#[verifier::loop_isolation(false)]
fn decode_device(v: &serde_json::Value) -> (r: Option<Device>)
    ensures
        match r {
            Some(d) => device_of_json(json_rep(*v)) == Some(d@),
            None => device_of_json(json_rep(*v)) is None,
        },
{
    let name_v = match json_get(v, "name") {
        Some(x) => x,
        None => {
            return None;
        },
    };
    let name = match json_as_str(name_v) {
        Some(t) => t,
        None => {
            return None;
        },
    };
    let macs_v = match json_get(v, "macs") {
        Some(x) => x,
        None => {
            return None;
        },
    };
    let macs_arr = match json_as_array(macs_v) {
        Some(a) => a,
        None => {
            return None;
        },
    };
    let ghost mreps = macs_arr@.map_values(|x: serde_json::Value| json_rep(x));
    let mut macs: Vec<String> = Vec::new();
    let m: usize = macs_arr.len();
    let mut j: usize = 0;
    while j < m
        invariant
            m == macs_arr@.len(),
            j <= m,
            mreps == macs_arr@.map_values(|x: serde_json::Value| json_rep(x)),
            mreps.len() == m,
            forall|k: int| 0 <= k < j ==> mreps[k] is Text,
            macs@.len() == j,
            forall|k: int| 0 <= k < j ==> #[trigger] macs@[k]@ == text_of(mreps[k]),
        decreases m - j,
    {
        proof {
            assert(json_rep(macs_arr@[j as int]) == mreps[j as int]);
        }
        let t = match json_as_str(&macs_arr[j]) {
            Some(t) => t,
            None => {
                proof {
                    assert(!(mreps[j as int] is Text));
                }
                return None;
            },
        };
        macs.push(t.to_owned());
        j = j + 1;
    }
    let d = Device { name: name.to_owned(), macs };
    proof {
        assert(d@.macs =~= mreps.map_values(|x: JsonRep| text_of(x)));
    }
    Some(d)
}

/// Loads the device registry from JSON text: a list of records, each with a
/// `name` text and a `macs` list of texts. Text that is not valid JSON is a
/// syntax error; valid JSON of any other shape — a missing field included —
/// is a shape error; nothing is loaded partially.
pub fn devices_from_json(s: &str) -> (r: Result<Vec<Device>, RegistryError>)
    ensures
        match r {
            Ok(ds) => {
                &&& json_doc_of(s@) matches Some(j)
                &&& registry_of_json(j) == Some(ds@.map_values(|d: Device| d@))
            },
            Err(RegistryError::Syntax(_)) => json_doc_of(s@) is None,
            Err(RegistryError::Shape) => {
                &&& json_doc_of(s@) matches Some(j)
                &&& registry_of_json(j) is None
            },
        },
{
    let doc = match parse_json(s) {
        Ok(v) => v,
        Err(detail) => {
            return Err(RegistryError::Syntax(detail));
        },
    };
    let ghost jd = json_rep(doc);
    let items = match json_as_array(&doc) {
        Some(a) => a,
        None => {
            return Err(RegistryError::Shape);
        },
    };
    let ghost reps = items@.map_values(|x: serde_json::Value| json_rep(x));
    let mut out: Vec<Device> = Vec::new();
    let n: usize = items.len();
    let mut i: usize = 0;
    while i < n
        invariant
            n == items@.len(),
            i <= n,
            reps == items@.map_values(|x: serde_json::Value| json_rep(x)),
            reps.len() == n,
            jd == JsonRep::List(reps),
            json_doc_of(s@) == Some(jd),
            forall|k: int| 0 <= k < i ==> device_of_json(#[trigger] reps[k]) is Some,
            out@.len() == i,
            forall|k: int| 0 <= k < i ==> #[trigger] out@[k]@ == device_or_empty(reps[k]),
        decreases n - i,
    {
        proof {
            assert(json_rep(items@[i as int]) == reps[i as int]);
        }
        let device = match decode_device(&items[i]) {
            Some(d) => d,
            None => {
                proof {
                    assert(device_of_json(reps[i as int]) is None);
                }
                return Err(RegistryError::Shape);
            },
        };
        out.push(device);
        i = i + 1;
    }
    proof {
        assert(out@.map_values(|d: Device| d@) =~= reps.map_values(|x: JsonRep| device_or_empty(x)));
    }
    Ok(out)
}

/// Adds one device to the index: each of its MACs, uppercased, is mapped to
/// the device's name, in the order the MAC list gives.
pub open spec fn add_device(es: Seq<Entry>, d: DeviceView) -> Seq<Entry>
    decreases d.macs.len(),
{
    if d.macs.len() == 0 {
        es
    } else {
        upsert(
            add_device(es, DeviceView { name: d.name, macs: d.macs.drop_last() }),
            upper_seq(d.macs.last()),
            d.name,
        )
    }
}

/// The MAC-to-name index of a registry: devices are added in order, so on a
/// shared MAC the later device overwrites the earlier one.
pub open spec fn mac_index(devs: Seq<DeviceView>) -> Seq<Entry>
    decreases devs.len(),
{
    if devs.len() == 0 {
        Seq::empty()
    } else {
        add_device(mac_index(devs.drop_last()), devs.last())
    }
}

/// Adding a device that lists a MAC whose uppercase form is `key` makes the
/// index map `key` to that device's name.
pub proof fn lemma_add_device_hit(es: Seq<Entry>, d: DeviceView, key: Seq<char>)
    requires
        exists|x: int| 0 <= x < d.macs.len() && upper_seq(d.macs[x]) == key,
    ensures
        crate::entries::lookup(add_device(es, d), key) == Some(d.name),
    decreases d.macs.len(),
{
    let x = choose|x: int| 0 <= x < d.macs.len() && upper_seq(d.macs[x]) == key;
    let dpre = DeviceView { name: d.name, macs: d.macs.drop_last() };
    if upper_seq(d.macs.last()) == key {
        crate::entries::lemma_lookup_upsert_same(add_device(es, dpre), key, d.name);
    } else {
        assert(x < d.macs.len() - 1);
        assert(dpre.macs[x] == d.macs[x]);
        lemma_add_device_hit(es, dpre, key);
        crate::entries::lemma_lookup_upsert_other(
            add_device(es, dpre),
            upper_seq(d.macs.last()),
            d.name,
            key,
        );
    }
}

/// Adding a device none of whose MACs uppercases to `key` leaves the lookup
/// of `key` unchanged.
pub proof fn lemma_add_device_miss(es: Seq<Entry>, d: DeviceView, key: Seq<char>)
    requires
        forall|x: int| 0 <= x < d.macs.len() ==> upper_seq(d.macs[x]) != key,
    ensures
        crate::entries::lookup(add_device(es, d), key) == crate::entries::lookup(es, key),
    decreases d.macs.len(),
{
    if d.macs.len() > 0 {
        let dpre = DeviceView { name: d.name, macs: d.macs.drop_last() };
        assert forall|x: int| 0 <= x < dpre.macs.len() implies upper_seq(dpre.macs[x]) != key by {
            assert(dpre.macs[x] == d.macs[x]);
        }
        lemma_add_device_miss(es, dpre, key);
        crate::entries::lemma_lookup_upsert_other(
            add_device(es, dpre),
            upper_seq(d.macs.last()),
            d.name,
            key,
        );
    }
}

/// If two registry devices list the same MAC address, the device appearing
/// later in the registry's record sequence wins the lookup: a device that
/// lists the MAC, with no later device listing it, is the one found.
pub proof fn lemma_later_device_wins(devs: Seq<DeviceView>, j: int, m: Seq<char>)
    requires
        0 <= j < devs.len(),
        exists|x: int| 0 <= x < devs[j].macs.len() && upper_seq(devs[j].macs[x]) == upper_seq(m),
        forall|k: int, x: int|
            j < k < devs.len() && 0 <= x < devs[k].macs.len() ==> upper_seq(devs[k].macs[x])
                != upper_seq(m),
    ensures
        crate::entries::lookup(mac_index(devs), upper_seq(m)) == Some(devs[j].name),
    decreases devs.len(),
{
    let pre = devs.drop_last();
    let d = devs.last();
    if j == devs.len() - 1 {
        lemma_add_device_hit(mac_index(pre), d, upper_seq(m));
    } else {
        assert forall|x: int| 0 <= x < d.macs.len() implies upper_seq(d.macs[x]) != upper_seq(
            m,
        ) by {
            assert(d == devs[devs.len() - 1]);
        }
        lemma_add_device_miss(mac_index(pre), d, upper_seq(m));
        assert(pre[j] == devs[j]);
        assert forall|k: int, x: int|
            j < k < pre.len() && 0 <= x < pre[k].macs.len() implies upper_seq(pre[k].macs[x])
            != upper_seq(m) by {
            assert(pre[k] == devs[k]);
        }
        lemma_later_device_wins(pre, j, m);
    }
}

/// Whether adding a device makes `key` present: it is present afterwards
/// exactly when it was present before or the device lists a MAC whose
/// uppercase form is `key`.
pub proof fn lemma_add_device_has_key(es: Seq<Entry>, d: DeviceView, key: Seq<char>)
    ensures
        crate::entries::has_key(add_device(es, d), key) <==> (crate::entries::has_key(es, key)
            || exists|x: int| 0 <= x < d.macs.len() && upper_seq(d.macs[x]) == key),
    decreases d.macs.len(),
{
    if d.macs.len() == 0 {
    } else {
        let dpre = DeviceView { name: d.name, macs: d.macs.drop_last() };
        lemma_add_device_has_key(es, dpre, key);
        if upper_seq(d.macs.last()) == key {
            crate::entries::lemma_lookup_upsert_same(add_device(es, dpre), key, d.name);
            assert(upper_seq(d.macs[d.macs.len() - 1]) == key);
        } else {
            crate::entries::lemma_lookup_upsert_other(
                add_device(es, dpre),
                upper_seq(d.macs.last()),
                d.name,
                key,
            );
            assert forall|x: int|
                0 <= x < d.macs.len() && upper_seq(d.macs[x]) == key implies 0 <= x
                < dpre.macs.len() && upper_seq(dpre.macs[x]) == key by {
                assert(x != d.macs.len() - 1);
                assert(dpre.macs[x] == d.macs[x]);
            }
            assert forall|x: int|
                0 <= x < dpre.macs.len() && upper_seq(dpre.macs[x]) == key implies 0 <= x
                < d.macs.len() && upper_seq(d.macs[x]) == key by {
                assert(dpre.macs[x] == d.macs[x]);
            }
        }
    }
}

/// MAC comparison between scan data and registry data is case-insensitive: a
/// scanned MAC finds some device exactly when some registry device lists a
/// MAC that is equal to it up to ASCII case.
pub proof fn lemma_index_covers(devs: Seq<DeviceView>, m: Seq<char>)
    ensures
        crate::entries::has_key(mac_index(devs), upper_seq(m)) <==> exists|k: int, x: int|
            0 <= k < devs.len() && 0 <= x < devs[k].macs.len() && upper_seq(devs[k].macs[x])
                == upper_seq(m),
    decreases devs.len(),
{
    if devs.len() == 0 {
    } else {
        let pre = devs.drop_last();
        let d = devs.last();
        lemma_index_covers(pre, m);
        lemma_add_device_has_key(mac_index(pre), d, upper_seq(m));
        if crate::entries::has_key(mac_index(devs), upper_seq(m)) {
            if crate::entries::has_key(mac_index(pre), upper_seq(m)) {
                let (k, x) = choose|k: int, x: int|
                    0 <= k < pre.len() && 0 <= x < pre[k].macs.len() && upper_seq(pre[k].macs[x])
                        == upper_seq(m);
                assert(devs[k] == pre[k]);
                assert(upper_seq(devs[k].macs[x]) == upper_seq(m));
            } else {
                let x = choose|x: int| 0 <= x < d.macs.len() && upper_seq(d.macs[x]) == upper_seq(
                    m,
                );
                assert(devs[devs.len() - 1] == d);
                assert(upper_seq(devs[devs.len() - 1].macs[x]) == upper_seq(m));
            }
        }
        if exists|k: int, x: int|
            0 <= k < devs.len() && 0 <= x < devs[k].macs.len() && upper_seq(devs[k].macs[x])
                == upper_seq(m) {
            let (k, x) = choose|k: int, x: int|
                0 <= k < devs.len() && 0 <= x < devs[k].macs.len() && upper_seq(devs[k].macs[x])
                    == upper_seq(m);
            if k < devs.len() - 1 {
                assert(pre[k] == devs[k]);
                assert(upper_seq(pre[k].macs[x]) == upper_seq(m));
            } else {
                assert(d == devs[k]);
                assert(upper_seq(d.macs[x]) == upper_seq(m));
            }
        }
    }
}

/// Builds the MAC-to-name index of the registry, following `mac_index`.
pub fn build_mac_index(devices: &Vec<Device>) -> (idx: OrderedIndex)
    ensures
        idx@ == mac_index(devices@.map_values(|d: Device| d@)),
{
    let ghost dvs = devices@.map_values(|d: Device| d@);
    let mut idx = OrderedIndex::new();
    let n: usize = devices.len();
    let mut i: usize = 0;
    while i < n
        invariant
            n == devices.len(),
            i <= n,
            dvs == devices@.map_values(|d: Device| d@),
            dvs.len() == n,
            idx@ == mac_index(dvs.take(i as int)),
        decreases n - i,
    {
        proof {
            assert(dvs.take(i as int + 1).drop_last() =~= dvs.take(i as int));
            assert(dvs.take(i as int + 1).last() == dvs[i as int]);
            assert(dvs[i as int] == devices@[i as int]@);
        }
        let device = &devices[i];
        let ghost dv = device@;
        let m: usize = device.macs.len();
        let mut j: usize = 0;
        while j < m
            invariant
                m == device.macs.len(),
                j <= m,
                dv == device@,
                idx@ == add_device(
                    mac_index(dvs.take(i as int)),
                    DeviceView { name: dv.name, macs: dv.macs.take(j as int) },
                ),
            decreases m - j,
        {
            proof {
                assert(dv.macs.take(j as int + 1).drop_last() =~= dv.macs.take(j as int));
                assert(dv.macs.take(j as int + 1).last() == dv.macs[j as int]);
                assert(dv.macs[j as int] == device.macs@[j as int]@);
            }
            let upper_mac = to_upper(device.macs[j].as_str());
            idx.upsert(upper_mac, device.name.clone());
            j = j + 1;
        }
        proof {
            assert(dv.macs.take(m as int) =~= dv.macs);
            assert(DeviceView { name: dv.name, macs: dv.macs.take(m as int) } == dv);
        }
        i = i + 1;
    }
    proof {
        assert(dvs.take(n as int) =~= dvs);
    }
    idx
}

} // verus!
