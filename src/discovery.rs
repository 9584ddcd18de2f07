use vstd::prelude::*;

verus! {

/// A 48-bit link-layer device address, held in the low bits of `value`.
#[derive(Debug, Clone, Copy, PartialEq, Eq, Structural)]
pub struct DeviceAddress {
    pub value: u64,
}

/// One entry of the transport's list of discovered devices.
pub struct Advertisement {
    pub address: DeviceAddress,
    pub name: Option<String>,
    pub rssi: Option<i16>,
    /// The 128-bit identifiers of the services the device advertises.
    pub services: Vec<u128>,
}

/// Whether `ad` advertises `service`.
pub fn advertises(ad: &Advertisement, service: u128) -> (r: bool)
    ensures
        r == ad.services@.contains(service),
{
    let mut i: usize = 0;
    while i < ad.services.len()
        invariant
            i <= ad.services@.len(),
            forall|j: int| 0 <= j < i ==> ad.services@[j] != service,
        decreases ad.services@.len() - i,
    {
        if ad.services[i] == service {
            return true;
        }
        i = i + 1;
    }
    false
}

/// `ad` passes the service filter and has address `target`.
pub open spec fn is_target(ad: Advertisement, service: u128, target: DeviceAddress) -> bool {
    ad.services@.contains(service) && ad.address == target
}

/// The position of the first advertisement in `ads` that advertises `service`
/// and has address `target`. Entries without the service are never chosen,
/// whatever their address.
pub fn find_target(ads: &Vec<Advertisement>, service: u128, target: DeviceAddress) -> (r: Option<usize>)
    ensures
        match r {
            Some(i) => i < ads@.len() && is_target(ads@[i as int], service, target)
                && forall|j: int| 0 <= j < i ==> !is_target(#[trigger] ads@[j], service, target),
            None => forall|j: int| 0 <= j < ads@.len() ==> !is_target(#[trigger] ads@[j], service, target),
        },
{
    let mut i: usize = 0;
    while i < ads.len()
        invariant
            i <= ads@.len(),
            forall|j: int| 0 <= j < i ==> !is_target(#[trigger] ads@[j], service, target),
        decreases ads@.len() - i,
    {
        let ad = &ads[i];
        if advertises(ad, service) && ad.address == target {
            return Some(i);
        }
        i = i + 1;
    }
    None
}

/// Listing mode: remembers the addresses already reported so that each
/// matching device is reported once.
pub struct DeviceListing {
    pub seen: Vec<DeviceAddress>,
}

impl DeviceListing {
    pub fn new() -> (r: DeviceListing)
        ensures
            r.seen@.len() == 0,
    {
        DeviceListing { seen: Vec::new() }
    }

    /// Whether `address` has been reported already.
    pub fn has_seen(&self, address: DeviceAddress) -> (r: bool)
        ensures
            r == self.seen@.contains(address),
    {
        let mut i: usize = 0;
        while i < self.seen.len()
            invariant
                i <= self.seen@.len(),
                forall|j: int| 0 <= j < i ==> self.seen@[j] != address,
            decreases self.seen@.len() - i,
        {
            if self.seen[i] == address {
                return true;
            }
            i = i + 1;
        }
        false
    }

    /// Takes one poll of the transport's device list and returns the positions
    /// in `ads` of the devices to report now: those that advertise `service`
    /// and whose address was not reported before, each address once, in list
    /// order. Their addresses are added to `seen`.
    pub fn observe(&mut self, ads: &Vec<Advertisement>, service: u128) -> (r: Vec<usize>)
        ensures
            final(self).seen@ == old(self).seen@ + r@.map_values(|i: usize| ads@[i as int].address),
            forall|k: int| 0 <= k < r@.len() ==> (#[trigger] r@[k]) < ads@.len()
                && ads@[r@[k] as int].services@.contains(service)
                && !old(self).seen@.contains(ads@[r@[k] as int].address),
            forall|k: int, l: int| 0 <= k < l < r@.len() ==> #[trigger] r@[k] < #[trigger] r@[l]
                && ads@[r@[k] as int].address != ads@[r@[l] as int].address,
            forall|j: int| 0 <= j < ads@.len() && (#[trigger] ads@[j]).services@.contains(service)
                ==> final(self).seen@.contains(ads@[j].address),
            forall|k: int, j: int| 0 <= k < r@.len() && 0 <= j < #[trigger] r@[k] && (#[trigger] ads@[j]).services@.contains(service)
                ==> ads@[j].address != ads@[r@[k] as int].address,
    {
        let mut out: Vec<usize> = Vec::new();
        let ghost seen0 = self.seen@;
        let mut i: usize = 0;
        while i < ads.len()
            invariant
                i <= ads@.len(),
                self.seen@ == seen0 + out@.map_values(|i: usize| ads@[i as int].address),
                forall|k: int| 0 <= k < out@.len() ==> (#[trigger] out@[k]) < i
                    && ads@[out@[k] as int].services@.contains(service)
                    && !seen0.contains(ads@[out@[k] as int].address),
                forall|k: int, l: int| 0 <= k < l < out@.len() ==> #[trigger] out@[k] < #[trigger] out@[l]
                    && ads@[out@[k] as int].address != ads@[out@[l] as int].address,
                forall|j: int| 0 <= j < i && (#[trigger] ads@[j]).services@.contains(service)
                    ==> self.seen@.contains(ads@[j].address),
                forall|k: int, j: int| 0 <= k < out@.len() && 0 <= j < #[trigger] out@[k] && (#[trigger] ads@[j]).services@.contains(service)
                    ==> ads@[j].address != ads@[out@[k] as int].address,
            decreases ads@.len() - i,
        {
            let ad = &ads[i];
            if advertises(ad, service) && !self.has_seen(ad.address) {
                let ghost before = self.seen@;
                proof {
                    if seen0.contains(ad.address) {
                        let w = choose|w: int| 0 <= w < seen0.len() && seen0[w] == ad.address;
                        assert(before[w] == ad.address);
                    }
                    assert forall|k: int| 0 <= k < out@.len() implies ads@[out@[k] as int].address != ad.address by {
                        assert(self.seen@[seen0.len() + k] == ads@[out@[k] as int].address);
                    }
                }
                out.push(i);
                self.seen.push(ad.address);
                proof {
                    assert(self.seen@ =~= seen0 + out@.map_values(|i: usize| ads@[i as int].address));
                    assert forall|j: int| 0 <= j <= i && (#[trigger] ads@[j]).services@.contains(service)
                        implies self.seen@.contains(ads@[j].address) by {
                        if j < i {
                            assert(before.contains(ads@[j].address));
                            let w = choose|w: int| 0 <= w < before.len() && before[w] == ads@[j].address;
                            assert(self.seen@[w] == ads@[j].address);
                        } else {
                            assert(self.seen@[self.seen@.len() - 1] == ads@[j].address);
                        }
                    }
                }
            }
            i = i + 1;
        }
        out
    }
}

} // verus!
