//! The selection coordinator: it folds the arrival of devices, the requests
//! of clients and the ticks of a clock into one decision, which entry to
//! boot.
//!
//! The coordinator performs no input and no output. Its caller hands it
//! each event with the reading of a monotonic clock, in milliseconds,
//! broadcasts the response that comes back, and ends the run when an
//! outcome comes back.

use crate::message::{
    copy_devices, devices_view, Device, DeviceModel, EntryModel, LinuxBootEntry, Request,
    RequestModel, Response, ResponseModel,
};
use vstd::prelude::*;

verus! {

/// How a run of the selection ends without an entry to boot.
#[derive(Debug, PartialEq, Eq)]
pub enum SelectEntryError {
    /// A client asked for a reboot.
    Reboot,
    /// A client asked to power off.
    Poweroff,
    /// The timeout passed, and no device has offered an entry.
    NoDefaultEntry,
    /// The socket could not be set up.
    Io(String),
    /// A system call failed.
    Nix(String),
}

/// What the coordinator knows, in mathematical form.
pub struct Selection {
    /// The devices seen, in the order of their arrival.
    pub devices: Seq<DeviceModel>,
    /// The entry that is booted when the timeout passes.
    pub default_entry: Option<EntryModel>,
    /// Whether a device that is not removable was seen.
    pub has_internal_device: bool,
    /// Whether a user is present. Once set, it stays set.
    pub has_user_interaction: bool,
    /// The longest timeout of the devices seen.
    pub timeout: u64,
    /// When the first device arrived.
    pub start: Option<u64>,
}

/// How a run ends, in mathematical form.
pub enum Ending {
    Boot(EntryModel),
    Reboot,
    Poweroff,
    NoDefaultEntry,
    /// The system failed; the coordinator itself never ends a run so.
    Failed,
}

/// Before the first event: no device, no default, no user, and no
/// countdown.
pub open spec fn initial() -> Selection {
    Selection {
        devices: Seq::empty(),
        default_entry: None,
        has_internal_device: false,
        has_user_interaction: false,
        timeout: 0,
        start: None,
    }
}

/// The index, from `i` on, of the first entry that is marked as default, or
/// the number of entries.
pub open spec fn first_default(entries: Seq<EntryModel>, i: int) -> int
    decreases entries.len() - i,
{
    if i < 0 || i >= entries.len() {
        entries.len() as int
    } else if entries[i].default {
        i
    } else {
        first_default(entries, i + 1)
    }
}

/// The entry that a device offers as default: its first entry that is
/// marked as default, or else its first entry; none if it has no entry.
pub open spec fn offered(device: DeviceModel) -> Option<EntryModel> {
    let k = first_default(device.boot_entries, 0);
    if 0 <= k < device.boot_entries.len() {
        Some(device.boot_entries[k])
    } else if device.boot_entries.len() > 0 {
        Some(device.boot_entries[0])
    } else {
        None
    }
}

/// The state after a device arrived at time `now`.
///
/// The first device starts the countdown. The timeout grows to that of the
/// device if that is longer. The first device that is not removable decides
/// the default entry with the entry that it offers; if it offers none, the
/// default stays as it is. Until such a device is seen, the first removable
/// device that offers an entry decides. After such a device was seen, no
/// device changes the default.
pub open spec fn with_device(s: Selection, device: DeviceModel, now: u64) -> Selection {
    Selection {
        devices: s.devices.push(device),
        default_entry: if s.has_internal_device {
            s.default_entry
        } else if !device.removable && offered(device) is Some {
            offered(device)
        } else if s.default_entry is None {
            offered(device)
        } else {
            s.default_entry
        },
        has_internal_device: s.has_internal_device || !device.removable,
        has_user_interaction: s.has_user_interaction,
        timeout: if device.timeout > s.timeout {
            device.timeout
        } else {
            s.timeout
        },
        start: match s.start {
            Some(t) => Some(t),
            None => Some(now),
        },
    }
}

/// The time that has passed since the first device arrived.
pub open spec fn elapsed(s: Selection, now: u64) -> int {
    match s.start {
        Some(t) => if now >= t {
            now - t
        } else {
            0
        },
        None => 0,
    }
}

/// Whether the countdown runs: a device was seen and no user is present.
pub open spec fn counting_down(s: Selection) -> bool {
    s.start is Some && !s.has_user_interaction
}

/// The time left that a tick at time `now` announces, if it announces any:
/// the countdown runs and the timeout has not passed.
pub open spec fn time_left(s: Selection, now: u64) -> Option<int> {
    if counting_down(s) && s.timeout > elapsed(s, now) {
        Some(s.timeout - elapsed(s, now))
    } else {
        None
    }
}

/// How a tick at time `now` ends the run, if it does: the countdown runs
/// and the timeout has passed.
pub open spec fn tick_ending(s: Selection, now: u64) -> Option<Ending> {
    if counting_down(s) && elapsed(s, now) >= s.timeout {
        match s.default_entry {
            Some(entry) => Some(Ending::Boot(entry)),
            None => Some(Ending::NoDefaultEntry),
        }
    } else {
        None
    }
}

/// The state after a request.
pub open spec fn with_request(s: Selection, request: RequestModel) -> Selection {
    match request {
        RequestModel::UserIsPresent => Selection { has_user_interaction: true, ..s },
        _ => s,
    }
}

/// What is broadcast on a request.
pub open spec fn request_broadcast(s: Selection, request: RequestModel) -> Option<ResponseModel> {
    match request {
        RequestModel::ListBlockDevices => Some(ResponseModel::ListBlockDevices(s.devices)),
        RequestModel::UserIsPresent => Some(ResponseModel::TimeLeft(None)),
        RequestModel::Reboot => Some(ResponseModel::ServerDone),
        RequestModel::Poweroff => Some(ResponseModel::ServerDone),
        _ => None,
    }
}

/// How a request ends the run, if it does.
pub open spec fn request_ending(request: RequestModel) -> Option<Ending> {
    match request {
        RequestModel::Boot(entry) => Some(Ending::Boot(entry)),
        RequestModel::Reboot => Some(Ending::Reboot),
        RequestModel::Poweroff => Some(Ending::Poweroff),
        _ => None,
    }
}

/// Something that happens to the coordinator, with the time at which it
/// happens where the time matters.
pub enum Happening {
    Arrival(DeviceModel, u64),
    Tick(u64),
    Asked(RequestModel),
}

/// The state after something happened.
pub open spec fn after(s: Selection, happening: Happening) -> Selection {
    match happening {
        Happening::Arrival(device, now) => with_device(s, device, now),
        Happening::Tick(_) => s,
        Happening::Asked(request) => with_request(s, request),
    }
}

/// The state after a sequence of happenings.
pub open spec fn after_all(s: Selection, happenings: Seq<Happening>) -> Selection
    decreases happenings.len(),
{
    if happenings.len() == 0 {
        s
    } else {
        after(after_all(s, happenings.drop_last()), happenings.last())
    }
}

/// The state after the given devices arrived in their order, at any times.
pub open spec fn after_arrivals(s: Selection, devices: Seq<DeviceModel>, times: Seq<u64>) -> Selection
    decreases devices.len(),
{
    if devices.len() == 0 || times.len() != devices.len() {
        s
    } else {
        with_device(
            after_arrivals(s, devices.drop_last(), times.drop_last()),
            devices.last(),
            times.last(),
        )
    }
}

/// What a reaction of the coordinator holds, in mathematical form.
pub open spec fn ending_of(outcome: Option<Result<LinuxBootEntry, SelectEntryError>>) -> Option<
    Ending,
> {
    match outcome {
        None => None,
        Some(Ok(entry)) => Some(Ending::Boot(entry@)),
        Some(Err(SelectEntryError::Reboot)) => Some(Ending::Reboot),
        Some(Err(SelectEntryError::Poweroff)) => Some(Ending::Poweroff),
        Some(Err(SelectEntryError::NoDefaultEntry)) => Some(Ending::NoDefaultEntry),
        Some(Err(_)) => Some(Ending::Failed),
    }
}

/// The view of an optional response.
pub open spec fn broadcast_view(broadcast: Option<Response>) -> Option<ResponseModel> {
    match broadcast {
        Some(response) => Some(response@),
        None => None,
    }
}

/// What the coordinator wants done after an event.
#[derive(Debug, PartialEq, Eq)]
pub struct Reaction {
    /// The response to broadcast to all clients, if any.
    pub broadcast: Option<Response>,
    /// How the run ends, if it ends.
    pub outcome: Option<Result<LinuxBootEntry, SelectEntryError>>,
}

/// The selection coordinator.
pub struct Coordinator {
    block_devices: Vec<Device>,
    default_entry: Option<LinuxBootEntry>,
    has_internal_device: bool,
    has_user_interaction: bool,
    timeout: u64,
    start: Option<u64>,
}

impl View for Coordinator {
    type V = Selection;

    closed spec fn view(&self) -> Selection {
        Selection {
            devices: devices_view(self.block_devices@),
            default_entry: match self.default_entry {
                Some(entry) => Some(entry@),
                None => None,
            },
            has_internal_device: self.has_internal_device,
            has_user_interaction: self.has_user_interaction,
            timeout: self.timeout,
            start: self.start,
        }
    }
}

/// The entry that a device offers as default, in executable form.
pub fn offer(device: &Device) -> (r: Option<LinuxBootEntry>)
    ensures
        match offered(device@) {
            Some(entry) => r matches Some(found) && found@ == entry,
            None => r is None,
        },
{
    let entries = &device.boot_entries;
    let ghost models = device@.boot_entries;
    let mut k: usize = 0;
    while k < entries.len() && !entries[k].default
        invariant
            k <= entries.len(),
            models == crate::message::entries_view(entries@),
            first_default(models, 0) == first_default(models, k as int),
        decreases entries.len() - k,
    {
        k += 1;
    }
    if k < entries.len() {
        Some(entries[k].duplicate())
    } else if entries.len() > 0 {
        Some(entries[0].duplicate())
    } else {
        None
    }
}

impl Coordinator {
    /// A coordinator that has seen nothing yet.
    pub fn new() -> (r: Self)
        ensures
            r@ == initial(),
    {
        let r = Coordinator {
            block_devices: Vec::new(),
            default_entry: None,
            has_internal_device: false,
            has_user_interaction: false,
            timeout: 0,
            start: None,
        };
        assert(devices_view(r.block_devices@) =~= Seq::<DeviceModel>::empty());
        r
    }

    /// A device has arrived at time `now`. The response announces it to the
    /// clients.
    pub fn on_device(&mut self, device: Device, now: u64) -> (r: Reaction)
        ensures
            final(self)@ == with_device(old(self)@, device@, now),
            r.broadcast matches Some(Response::NewDevice(announced)) && announced@ == device@,
            r.outcome is None,
    {
        if self.start.is_none() {
            self.start = Some(now);
        }
        if device.timeout > self.timeout {
            self.timeout = device.timeout;
        }
        if !self.has_internal_device {
            let offer = offer(&device);
            if (!device.removable && offer.is_some()) || self.default_entry.is_none() {
                self.default_entry = offer;
            }
        }
        if !device.removable {
            self.has_internal_device = true;
        }
        let announced = device.duplicate();
        let ghost before = devices_view(self.block_devices@);
        self.block_devices.push(device);
        proof {
            assert(devices_view(self.block_devices@) =~= before.push(device@));
        }
        Reaction { broadcast: Some(Response::NewDevice(announced)), outcome: None }
    }

    /// The clock has ticked at time `now`.
    ///
    /// While the countdown runs, a tick before the timeout announces the
    /// time that is left, which is more than zero, and a tick at or after
    /// the timeout ends the run with the default entry, or without one if
    /// there is none. Before the first device and once a user is present a
    /// tick does nothing.
    pub fn on_tick(&self, now: u64) -> (r: Reaction)
        ensures
            match time_left(self@, now) {
                Some(left) => r.broadcast matches Some(Response::TimeLeft(Some(d))) && d == left
                    && d > 0,
                None => r.broadcast is None,
            },
            ending_of(r.outcome) == tick_ending(self@, now),
            self@.has_user_interaction ==> r.broadcast is None && r.outcome is None,
    {
        let start = match self.start {
            Some(t) => t,
            None => {
                return Reaction { broadcast: None, outcome: None };
            },
        };
        if self.has_user_interaction {
            return Reaction { broadcast: None, outcome: None };
        }
        let passed = if now >= start {
            now - start
        } else {
            0
        };
        if self.timeout > passed {
            Reaction { broadcast: Some(Response::TimeLeft(Some(self.timeout - passed))), outcome: None }
        } else {
            let outcome = match &self.default_entry {
                Some(entry) => Ok(entry.duplicate()),
                None => Err(SelectEntryError::NoDefaultEntry),
            };
            Reaction { broadcast: None, outcome: Some(outcome) }
        }
    }

    /// A client has sent a request.
    ///
    /// `ListBlockDevices` is answered with the devices seen. `UserIsPresent`
    /// stops the countdown for good and announces that no time is counted.
    /// `Boot` ends the run with the entry that it names; `Reboot` and
    /// `Poweroff` end it after the clients were told that the server is
    /// done. The other requests are the business of the connection and
    /// change nothing.
    pub fn on_request(&mut self, request: Request) -> (r: Reaction)
        ensures
            final(self)@ == with_request(old(self)@, request@),
            broadcast_view(r.broadcast) == request_broadcast(old(self)@, request@),
            ending_of(r.outcome) == request_ending(request@),
    {
        match request {
            Request::StartStreaming | Request::StopStreaming | Request::Ping => Reaction {
                broadcast: None,
                outcome: None,
            },
            Request::ListBlockDevices => Reaction {
                broadcast: Some(Response::ListBlockDevices(copy_devices(&self.block_devices))),
                outcome: None,
            },
            Request::Boot(entry) => Reaction { broadcast: None, outcome: Some(Ok(entry)) },
            Request::UserIsPresent => {
                self.has_user_interaction = true;
                Reaction { broadcast: Some(Response::TimeLeft(None)), outcome: None }
            },
            Request::Reboot => Reaction {
                broadcast: Some(Response::ServerDone),
                outcome: Some(Err(SelectEntryError::Reboot)),
            },
            Request::Poweroff => Reaction {
                broadcast: Some(Response::ServerDone),
                outcome: Some(Err(SelectEntryError::Poweroff)),
            },
        }
    }
}

/// A tick never announces a time left that is zero or less, whatever
/// happened before.
pub proof fn lemma_time_left_positive(s: Selection, now: u64)
    ensures
        time_left(s, now) matches Some(left) ==> 0 < left <= s.timeout,
{
}

/// Once a user is present, the user stays present whatever happens, and no
/// tick announces a time left or ends the run.
pub proof fn lemma_user_present_stops_countdown(
    s: Selection,
    happenings: Seq<Happening>,
    now: u64,
)
    requires
        s.has_user_interaction,
    ensures
        after_all(s, happenings).has_user_interaction,
        time_left(after_all(s, happenings), now) is None,
        tick_ending(after_all(s, happenings), now) is None,
    decreases happenings.len(),
{
    if happenings.len() > 0 {
        lemma_user_present_stops_countdown(s, happenings.drop_last(), now);
    }
}

/// What happens in two parts happens one part after the other.
pub proof fn lemma_after_all_split(s: Selection, first: Seq<Happening>, second: Seq<Happening>)
    ensures
        after_all(s, first + second) == after_all(after_all(s, first), second),
    decreases second.len(),
{
    if second.len() == 0 {
        assert(first + second =~= first);
    } else {
        lemma_after_all_split(s, first, second.drop_last());
        assert((first + second).drop_last() =~= first + second.drop_last());
        assert((first + second).last() == second.last());
    }
}

/// After a client has said that a user is present, no tick announces a
/// time left and no tick ends the run, whatever else happens before or
/// after: if the `k`-th of the things that happen is that request, the
/// state after the first `n` of them, for any `n` above `k`, lets a tick at
/// any time pass in silence.
pub proof fn lemma_silent_after_user_is_present(
    s: Selection,
    happenings: Seq<Happening>,
    k: int,
    n: int,
    now: u64,
)
    requires
        0 <= k < n <= happenings.len(),
        happenings[k] == Happening::Asked(RequestModel::UserIsPresent),
    ensures
        time_left(after_all(s, happenings.take(n)), now) is None,
        tick_ending(after_all(s, happenings.take(n)), now) is None,
{
    let upto = happenings.take(k + 1);
    let rest = happenings.subrange(k + 1, n);
    assert(upto.last() == happenings[k]);
    let present = after_all(s, upto);
    assert(present.has_user_interaction);
    lemma_user_present_stops_countdown(present, rest, now);
    lemma_after_all_split(s, upto, rest);
    assert(upto + rest =~= happenings.take(n));
}

/// After any arrivals, a device that is not removable was seen if and only
/// if one was seen before or one has arrived; and if the first such device
/// was among the arrivals, and each such device offers an entry, the
/// default entry is the one that a device among them that is not removable
/// offers.
pub proof fn lemma_internal_device_decides(
    s: Selection,
    devices: Seq<DeviceModel>,
    times: Seq<u64>,
)
    requires
        times.len() == devices.len(),
    ensures
        after_arrivals(s, devices, times).has_internal_device <==> (s.has_internal_device
            || exists|k: int| 0 <= k < devices.len() && !(#[trigger] devices[k]).removable),
        !s.has_internal_device && after_arrivals(s, devices, times).has_internal_device && (
        forall|k: int|
            0 <= k < devices.len() && !(#[trigger] devices[k]).removable ==> offered(devices[k])
                is Some) ==> exists|k: int|
            0 <= k < devices.len() && !(#[trigger] devices[k]).removable && after_arrivals(
                s,
                devices,
                times,
            ).default_entry == offered(devices[k]),
    decreases devices.len(),
{
    if devices.len() > 0 {
        let front = devices.drop_last();
        let before = after_arrivals(s, front, times.drop_last());
        let last = devices.last();
        lemma_internal_device_decides(s, front, times.drop_last());
        let r = after_arrivals(s, devices, times);
        let all_offer = forall|k: int|
            0 <= k < devices.len() && !(#[trigger] devices[k]).removable ==> offered(devices[k])
                is Some;
        if all_offer {
            assert forall|k: int| 0 <= k < front.len() && !(#[trigger] front[k]).removable implies offered(
                front[k],
            ) is Some by {
                assert(front[k] == devices[k]);
            }
        }
        if before.has_internal_device {
            if !s.has_internal_device && all_offer {
                let k = choose|k: int|
                    0 <= k < front.len() && !(#[trigger] front[k]).removable
                        && before.default_entry == offered(front[k]);
                assert(devices[k] == front[k]);
            }
            if exists|k: int| 0 <= k < front.len() && !(#[trigger] front[k]).removable {
                let k = choose|k: int| 0 <= k < front.len() && !(#[trigger] front[k]).removable;
                assert(devices[k] == front[k]);
            }
        } else if !last.removable {
            assert(devices[devices.len() - 1] == last);
        } else {
            assert forall|k: int| 0 <= k < devices.len() implies (#[trigger] devices[k]).removable by {
                if k < front.len() {
                    assert(devices[k] == front[k]);
                }
            }
        }
    }
}

/// Devices that offer no entry leave no default entry.
pub proof fn lemma_nothing_offered(devices: Seq<DeviceModel>, times: Seq<u64>)
    requires
        times.len() == devices.len(),
        forall|k: int| 0 <= k < devices.len() ==> offered(#[trigger] devices[k]) is None,
    ensures
        after_arrivals(initial(), devices, times).default_entry is None,
    decreases devices.len(),
{
    if devices.len() > 0 {
        let front = devices.drop_last();
        assert forall|k: int| 0 <= k < front.len() implies offered(#[trigger] front[k]) is None by {
            assert(front[k] == devices[k]);
        }
        lemma_nothing_offered(front, times.drop_last());
        assert(offered(devices.last()) is None);
    }
}

/// The default entry does not depend on the order of arrival: two
/// sequences of arrivals that bring the same devices, among them one that
/// is not removable, leave the same default entry, provided that the
/// devices that are not removable all offer an entry, and the same one, or
/// that no device offers any.
pub proof fn lemma_default_independent_of_order(
    first: Seq<DeviceModel>,
    first_times: Seq<u64>,
    second: Seq<DeviceModel>,
    second_times: Seq<u64>,
)
    requires
        first_times.len() == first.len(),
        second_times.len() == second.len(),
        first.to_multiset() == second.to_multiset(),
        exists|k: int| 0 <= k < first.len() && !(#[trigger] first[k]).removable,
        (forall|i: int|
            0 <= i < first.len() && !(#[trigger] first[i]).removable ==> offered(first[i])
                is Some) || (forall|i: int|
            0 <= i < first.len() ==> offered(#[trigger] first[i]) is None),
        forall|i: int, j: int|
            0 <= i < first.len() && 0 <= j < first.len() && !(#[trigger] first[i]).removable && !(
            #[trigger] first[j]).removable ==> offered(first[i]) == offered(first[j]),
    ensures
        after_arrivals(initial(), first, first_times).default_entry == after_arrivals(
            initial(),
            second,
            second_times,
        ).default_entry,
{
    broadcast use vstd::seq_lib::group_to_multiset_ensures;

    let a = after_arrivals(initial(), first, first_times);
    let b = after_arrivals(initial(), second, second_times);
    if forall|i: int| 0 <= i < first.len() ==> offered(#[trigger] first[i]) is None {
        assert forall|k: int| 0 <= k < second.len() implies offered(#[trigger] second[k]) is None by {
            assert(second.contains(second[k]));
            assert(second.to_multiset().count(second[k]) > 0);
            assert(first.contains(second[k]));
        }
        lemma_nothing_offered(first, first_times);
        lemma_nothing_offered(second, second_times);
        return ;
    }
    assert forall|k: int| 0 <= k < second.len() && !(#[trigger] second[k]).removable implies offered(
        second[k],
    ) is Some by {
        assert(second.contains(second[k]));
        assert(second.to_multiset().count(second[k]) > 0);
        assert(first.contains(second[k]));
        let k1 = choose|k1: int| 0 <= k1 < first.len() && first[k1] == second[k];
        assert(!first[k1].removable);
    }
    lemma_internal_device_decides(initial(), first, first_times);
    lemma_internal_device_decides(initial(), second, second_times);
    let w = choose|k: int| 0 <= k < first.len() && !(#[trigger] first[k]).removable;
    assert(first.contains(first[w]));
    assert(first.to_multiset().count(first[w]) > 0);
    assert(second.contains(first[w]));
    let w2 = choose|k: int| 0 <= k < second.len() && second[k] == first[w];
    assert(!second[w2].removable);
    assert(a.has_internal_device);
    assert(b.has_internal_device);
    let i = choose|k: int|
        0 <= k < first.len() && !(#[trigger] first[k]).removable && a.default_entry == offered(
            first[k],
        );
    let j = choose|k: int|
        0 <= k < second.len() && !(#[trigger] second[k]).removable && b.default_entry == offered(
            second[k],
        );
    assert(second.contains(second[j]));
    assert(second.to_multiset().count(second[j]) > 0);
    assert(first.contains(second[j]));
    let j2 = choose|k: int| 0 <= k < first.len() && first[k] == second[j];
    assert(offered(first[i]) == offered(first[j2]));
}

} // verus!
