//! The devices that have been discovered.
use vstd::prelude::*;
use vstd::string::*;

use crate::address::Endpoint;

verus! {

/// A device that has been discovered.
#[derive(Clone, Debug)]
pub struct DeviceEntry {
    pub ctrl_addr: String,
    pub ip: String,
    pub port: u16,
}

/// What a device entry says.
#[verifier::ext_equal]
pub struct DeviceEntryView {
    pub ctrl_addr: Seq<char>,
    pub ip: Seq<char>,
    pub port: u16,
}

impl View for DeviceEntry {
    type V = DeviceEntryView;

    open spec fn view(&self) -> DeviceEntryView {
        DeviceEntryView { ctrl_addr: self.ctrl_addr@, ip: self.ip@, port: self.port }
    }
}

/// The entry for a device at `e`.
pub open spec fn entry_for(e: Endpoint) -> DeviceEntryView {
    DeviceEntryView { ctrl_addr: e.text@, ip: e.ip@, port: e.port }
}

/// What the entries of a list say.
pub open spec fn entries(list: Seq<DeviceEntry>) -> Seq<DeviceEntryView> {
    list.map_values(|d: DeviceEntry| d@)
}

/// A device at the control address `addr` is in the list.
pub open spec fn known(list: Seq<DeviceEntryView>, addr: Seq<char>) -> bool {
    exists|i: int| 0 <= i < list.len() && (#[trigger] list[i]).ctrl_addr == addr
}

/// No control address is in the list twice.
pub open spec fn distinct(list: Seq<DeviceEntryView>) -> bool {
    forall|i: int, j: int|
        0 <= i < j < list.len() ==> (#[trigger] list[i]).ctrl_addr != (#[trigger] list[j]).ctrl_addr
}

/// Where the listed control address is an IPv4 address, the listed `ip` and `port` are those of it.
pub open spec fn belongs_together(e: DeviceEntryView) -> bool {
    forall|a: crate::address::V4Addr|
        e.ctrl_addr == #[trigger] crate::address::v4_text(a) ==> e.ip == crate::address::ip_text(
            a.ip@,
        ) && e.port == a.port
}

/// All entries of the list belong together.
pub open spec fn consistent(list: Seq<DeviceEntryView>) -> bool {
    forall|i: int| 0 <= i < list.len() ==> belongs_together(#[trigger] list[i])
}

/// All addresses in `found` are well formed.
pub open spec fn all_wf(found: Seq<Endpoint>) -> bool {
    forall|i: int| 0 <= i < found.len() ==> (#[trigger] found[i]).wf()
}

/// The list once the first `n` of the devices in `found` are in it: a device that is not known yet
/// is appended.
pub open spec fn with_found(list: Seq<DeviceEntryView>, found: Seq<Endpoint>, n: int) -> Seq<
    DeviceEntryView,
>
    decreases n,
{
    if n <= 0 {
        list
    } else {
        let before = with_found(list, found, n - 1);
        if known(before, found[n - 1].text@) {
            before
        } else {
            before.push(entry_for(found[n - 1]))
        }
    }
}

fn is_known(list: &Vec<DeviceEntry>, addr: &String) -> (r: bool)
    ensures
        r == known(entries(list@), addr@),
{
    let mut i: usize = 0;
    while i < list.len()
        invariant
            i <= list@.len(),
            forall|k: int| 0 <= k < i ==> (#[trigger] entries(list@)[k]).ctrl_addr != addr@,
        decreases list@.len() - i,
    {
        if list[i].ctrl_addr == *addr {
            assert(entries(list@)[i as int].ctrl_addr == addr@);
            return true;
        }
        i = i + 1;
    }
    false
}

/// Adds the devices that a discovery found to those that are known. A device that is known already
/// is not added again.
pub fn merge_devices(devices: &mut Vec<DeviceEntry>, found: Vec<Endpoint>)
    ensures
        entries(final(devices)@) == with_found(
            entries(old(devices)@),
            found@,
            found@.len() as int,
        ),
        consistent(entries(old(devices)@)) && all_wf(found@) ==> consistent(
            entries(final(devices)@),
        ),
{
    proof {
        if consistent(entries(devices@)) && all_wf(found@) {
            law_listed_addresses_belong_together(
                entries(devices@),
                found@,
                found@.len() as int,
            );
        }
    }
    let ghost before = entries(devices@);
    for e in it: found
        invariant
            it.seq() == found@,
            entries(devices@) == with_found(before, found@, it.index() as int),
    {
        let ghost so_far = devices@;
        if !is_known(devices, &e.text) {
            let d = DeviceEntry { ctrl_addr: e.text, ip: e.ip, port: e.port };
            devices.push(d);
            assert(entries(so_far.push(d)) =~= entries(so_far).push(entry_for(e)));
        }
    }
}

/// A discovery takes nothing away: the list it starts from stays in front, and every device that it
/// found is in the list afterwards.
pub proof fn law_discovery_only_adds(list: Seq<DeviceEntryView>, found: Seq<Endpoint>, n: int)
    requires
        0 <= n <= found.len(),
    ensures
        list.len() <= with_found(list, found, n).len(),
        with_found(list, found, n).take(list.len() as int) == list,
        forall|i: int| 0 <= i < n ==> known(with_found(list, found, n), (#[trigger] found[i]).text@),
    decreases n,
{
    if n > 0 {
        law_discovery_only_adds(list, found, n - 1);
        let before = with_found(list, found, n - 1);
        let after = with_found(list, found, n);
        assert(after.take(list.len() as int) =~= before.take(list.len() as int));
        assert forall|i: int| 0 <= i < n implies known(after, (#[trigger] found[i]).text@) by {
            if i < n - 1 {
                assert(known(before, found[i].text@));
                let k = choose|k: int|
                    0 <= k < before.len() && (#[trigger] before[k]).ctrl_addr == found[i].text@;
                assert(after[k] == before[k]);
            } else if !known(before, found[i].text@) {
                assert(after[before.len() as int].ctrl_addr == found[i].text@);
            }
        }
    } else {
        assert(list.take(list.len() as int) =~= list);
    }
}

/// A discovery never lists a device twice.
pub proof fn law_discovery_keeps_devices_distinct(
    list: Seq<DeviceEntryView>,
    found: Seq<Endpoint>,
    n: int,
)
    requires
        distinct(list),
        0 <= n <= found.len(),
    ensures
        distinct(with_found(list, found, n)),
    decreases n,
{
    if n > 0 {
        law_discovery_keeps_devices_distinct(list, found, n - 1);
    }
}

/// A discovery keeps the list consistent: each listed `ip` and `port` belong to the address that is
/// listed with them.
pub proof fn law_listed_addresses_belong_together(
    list: Seq<DeviceEntryView>,
    found: Seq<Endpoint>,
    n: int,
)
    requires
        consistent(list),
        all_wf(found),
        0 <= n <= found.len(),
    ensures
        consistent(with_found(list, found, n)),
    decreases n,
{
    if n > 0 {
        law_listed_addresses_belong_together(list, found, n - 1);
        let e = found[n - 1];
        assert(e.wf());
        assert(belongs_together(entry_for(e))) by {
            assert forall|a: crate::address::V4Addr|
                e.text@ == #[trigger] crate::address::v4_text(a) implies e.ip@
                == crate::address::ip_text(a.ip@) && e.port == a.port by {
                crate::address::law_v4_text_is_injective(a, e.v4->0);
            }
        }
    }
}

proof fn lemma_known_adds_nothing(list: Seq<DeviceEntryView>, found: Seq<Endpoint>, n: int)
    requires
        0 <= n <= found.len(),
        forall|i: int| 0 <= i < n ==> known(list, (#[trigger] found[i]).text@),
    ensures
        with_found(list, found, n) == list,
    decreases n,
{
    if n > 0 {
        lemma_known_adds_nothing(list, found, n - 1);
        assert(known(list, found[n - 1].text@));
    }
}

/// Discovering the same devices again changes nothing.
pub proof fn law_discovery_is_idempotent(list: Seq<DeviceEntryView>, found: Seq<Endpoint>)
    ensures
        ({
            let once = with_found(list, found, found.len() as int);
            with_found(once, found, found.len() as int) == once
        }),
{
    law_discovery_only_adds(list, found, found.len() as int);
    lemma_known_adds_nothing(
        with_found(list, found, found.len() as int),
        found,
        found.len() as int,
    );
}

/// An entry says what its fields hold.
pub proof fn law_an_entry_says_what_it_holds(d: DeviceEntry)
    ensures
        d@.ctrl_addr == d.ctrl_addr@,
        d@.ip == d.ip@,
        d@.port == d.port,
{
}

/// A device that is not in the list yet is appended as it was found; one whose address is in the list
/// changes nothing.
pub proof fn law_a_device_is_listed_as_found(list: Seq<DeviceEntryView>, found: Seq<Endpoint>)
    requires
        found.len() == 1,
    ensures
        ({
            let after = with_found(list, found, 1);
            let e = found[0];
            &&& (exists|i: int| 0 <= i < list.len() && (#[trigger] list[i]).ctrl_addr == e.text@)
                ==> after == list
            &&& !(exists|i: int| 0 <= i < list.len() && (#[trigger] list[i]).ctrl_addr == e.text@)
                ==> {
                &&& after.len() == list.len() + 1
                &&& after.take(list.len() as int) == list
                &&& after.last().ctrl_addr == e.text@
                &&& after.last().ip == e.ip@
                &&& after.last().port == e.port
            }
        }),
{
    assert(with_found(list, found, 0) == list);
    assert(with_found(list, found, 1).take(list.len() as int) =~= list);
}

/// Nothing is listed but what was listed before and what was found: every new entry has the address, the
/// `ip` and the `port` of one device that was found.
pub proof fn law_discovery_lists_nothing_else(
    list: Seq<DeviceEntryView>,
    found: Seq<Endpoint>,
    n: int,
    k: int,
)
    requires
        0 <= n <= found.len(),
        list.len() <= k < with_found(list, found, n).len(),
    ensures
        exists|i: int|
            0 <= i < n && with_found(list, found, n)[k].ctrl_addr == (#[trigger] found[i]).text@
                && with_found(list, found, n)[k].ip == found[i].ip@ && with_found(list, found, n)[k].port
                == found[i].port,
    decreases n,
{
    if n > 0 {
        let before = with_found(list, found, n - 1);
        if k < before.len() {
            law_discovery_lists_nothing_else(list, found, n - 1, k);
            let i = choose|i: int|
                0 <= i < n - 1 && before[k].ctrl_addr == (#[trigger] found[i]).text@ && before[k].ip
                    == found[i].ip@ && before[k].port == found[i].port;
            assert(with_found(list, found, n)[k] == before[k]);
            assert(with_found(list, found, n)[k].ctrl_addr == found[i].text@);
        } else {
            assert(with_found(list, found, n)[k].ctrl_addr == found[n - 1].text@);
        }
    }
}

} // verus!
