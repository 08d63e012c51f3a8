//! The device registry and its presence detector.
//!
//! The registry maps each attached device's path to its entry. A path is
//! `bus:address`, both in decimal. An entry is available, or held by one
//! session, whose teardown notifier the entry keeps. Between the two lie
//! the steps of a handshake: before a device changes hands, its session is
//! told to let go and the registry waits for the acknowledgment.
//!
//! Enumerating the bus, opening a handle and signalling a session are the
//! caller's work; the registry says what is to be done and records what was.

use vstd::prelude::*;
use vstd::string::StringExecFns;
use vstd::utf8::encode_utf8;

verus! {

/// Vendor identifier of the supported device.
pub const VID: u16 = 0x0483;

/// Product identifier of the supported device.
pub const PID: u16 = 0x7503;

/// Endpoint addresses of the supported device.
pub const EP_VIS: u8 = 0x83;

pub const EP_OUT: u8 = 0x01;

pub const EP_IN: u8 = 0x81;

pub const EP_DATA_OUT: u8 = 0x07;

pub const EP_DATA_IN: u8 = 0x86;

/// Pause between two passes over the bus, in milliseconds.
pub const POLL_INTERVAL_MS: u64 = 200;

/// How long the bus may stay empty before polling stops, in milliseconds.
pub const EMPTY_LIMIT_MS: u64 = 5000;

/// Pause before a caller asks again for a device that another caller is
/// taking, in milliseconds.
pub const BUSY_RETRY_MS: u64 = 20;

/// What enumeration reports of one attached device.
#[derive(Clone, Copy, Debug, PartialEq, Eq, Structural)]
pub struct UsbDescriptor {
    pub vendor_id: u16,
    pub product_id: u16,
    pub bus_number: u8,
    pub address: u8,
}

impl UsbDescriptor {
    /// Whether this is the supported device.
    pub open spec fn supported(self) -> bool {
        self.vendor_id == VID && self.product_id == PID
    }

    /// The device's path.
    pub open spec fn path(self) -> Seq<char> {
        device_path(self.bus_number, self.address)
    }
}

/// The character for a digit.
pub open spec fn digit_char(d: nat) -> char {
    if d == 0 {
        '0'
    } else if d == 1 {
        '1'
    } else if d == 2 {
        '2'
    } else if d == 3 {
        '3'
    } else if d == 4 {
        '4'
    } else if d == 5 {
        '5'
    } else if d == 6 {
        '6'
    } else if d == 7 {
        '7'
    } else if d == 8 {
        '8'
    } else {
        '9'
    }
}

/// A number in decimal, without leading zeros.
pub open spec fn decimal(n: nat) -> Seq<char>
    decreases n,
{
    if n < 10 {
        seq![digit_char(n)]
    } else {
        decimal(n / 10).push(digit_char(n % 10))
    }
}

/// The path of the device at `address` on bus `bus`.
pub open spec fn device_path(bus: u8, address: u8) -> Seq<char> {
    decimal(bus as nat) + seq![':'] + decimal(address as nat)
}

fn digit_str(d: u8) -> (r: &'static str)
    requires
        d < 10,
    ensures
        r@ == seq![digit_char(d as nat)],
{
    proof {
        reveal_strlit("0");
        reveal_strlit("1");
        reveal_strlit("2");
        reveal_strlit("3");
        reveal_strlit("4");
        reveal_strlit("5");
        reveal_strlit("6");
        reveal_strlit("7");
        reveal_strlit("8");
        reveal_strlit("9");
    }
    let r = match d {
        0 => "0",
        1 => "1",
        2 => "2",
        3 => "3",
        4 => "4",
        5 => "5",
        6 => "6",
        7 => "7",
        8 => "8",
        _ => "9",
    };
    assert(r@ =~= seq![digit_char(d as nat)]);
    r
}

/// Appends `n` in decimal to `out`.
fn push_decimal(out: &mut String, n: u8)
    ensures
        final(out)@ == old(out)@ + decimal(n as nat),
{
    reveal_with_fuel(decimal, 3);
    if n >= 100 {
        out.append(digit_str(n / 100));
    }
    if n >= 10 {
        out.append(digit_str((n / 10) % 10));
    }
    out.append(digit_str(n % 10));
    assert(out@ =~= old(out)@ + decimal(n as nat));
}

/// Builds the path of the device at `address` on bus `bus`.
pub fn make_path(bus: u8, address: u8) -> (path: String)
    ensures
        path@ == device_path(bus, address),
{
    proof {
        reveal_strlit(":");
    }
    let mut path = String::new();
    push_decimal(&mut path, bus);
    path.append(":");
    assert(":"@ =~= seq![':']);
    push_decimal(&mut path, address);
    assert(path@ =~= device_path(bus, address));
    path
}

/// Whether two strings are the same text.
pub fn same_text(a: &str, b: &str) -> (r: bool)
    ensures
        r == (a@ == b@),
{
    let x = a.as_bytes();
    let y = b.as_bytes();
    proof {
        vstd::utf8::encode_utf8_decode_utf8(a@);
        vstd::utf8::encode_utf8_decode_utf8(b@);
    }
    if x.len() != y.len() {
        return false;
    }
    let mut k: usize = 0;
    while k < x.len()
        invariant
            k <= x@.len(),
            x@.len() == y@.len(),
            x@.take(k as int) == y@.take(k as int),
            x@ == encode_utf8(a@),
            y@ == encode_utf8(b@),
            vstd::utf8::decode_utf8(encode_utf8(a@)) == a@,
            vstd::utf8::decode_utf8(encode_utf8(b@)) == b@,
        decreases x@.len() - k,
    {
        if x[k] != y[k] {
            assert(x@[k as int] != y@[k as int]);
            return false;
        }
        k += 1;
        assert(x@.take(k as int) =~= x@.take(k - 1).push(x@[k - 1]));
        assert(y@.take(k as int) =~= y@.take(k - 1).push(y@[k - 1]));
    }
    assert(x@ =~= x@.take(k as int));
    assert(y@ =~= y@.take(k as int));
    true
}

/// Where a device stands between two sessions.
#[derive(Debug, PartialEq, Eq)]
pub enum DeviceAcquiredState<T> {
    /// No session holds the device.
    Available,
    /// The session that held the device was told to let go; its
    /// acknowledgment is awaited.
    Releasing,
    /// The device is kept for the caller that is opening it.
    Opening,
    /// A session holds the device; this is its teardown notifier.
    Acquired(T),
}

/// What a caller who asked for a device has to do next.
#[derive(Debug, PartialEq, Eq)]
pub enum AcquireStep<T> {
    /// No device at this path right now.
    NoDevice,
    /// Another caller is in the middle of taking this device: ask again
    /// after `BUSY_RETRY_MS`.
    Busy,
    /// The device is free and kept for the caller: open the hardware handle,
    /// start the session, and hand its teardown notifier to
    /// `finish_acquire`; or give the device back with `abort_acquire`.
    Open,
    /// A session holds the device. Signal this notifier, wait until the
    /// session has let go of the hardware handle, then call
    /// `teardown_acknowledged`. The handle must not be opened before.
    Evict(T),
}

impl<T> DeviceAcquiredState<T> {
    /// The state after a caller asked for the device.
    pub open spec fn requested(self) -> DeviceAcquiredState<T> {
        match self {
            DeviceAcquiredState::Available => DeviceAcquiredState::Opening,
            DeviceAcquiredState::Acquired(_) => DeviceAcquiredState::Releasing,
            other => other,
        }
    }

    /// What the caller who asked is told.
    pub open spec fn answer(self) -> AcquireStep<T> {
        match self {
            DeviceAcquiredState::Available => AcquireStep::Open,
            DeviceAcquiredState::Acquired(tx) => AcquireStep::Evict(tx),
            _ => AcquireStep::Busy,
        }
    }

    /// The state after the old session acknowledged its teardown.
    pub open spec fn acknowledged(self) -> DeviceAcquiredState<T> {
        match self {
            DeviceAcquiredState::Releasing => DeviceAcquiredState::Opening,
            other => other,
        }
    }

    /// The state after the new session's notifier was handed in.
    pub open spec fn granted(self, tx: T) -> DeviceAcquiredState<T> {
        match self {
            DeviceAcquiredState::Opening => DeviceAcquiredState::Acquired(tx),
            other => other,
        }
    }

    /// The state after the caller gave up opening the device.
    pub open spec fn aborted(self) -> DeviceAcquiredState<T> {
        match self {
            DeviceAcquiredState::Opening => DeviceAcquiredState::Available,
            other => other,
        }
    }
}

/// A registry entry, as contracts speak of it.
pub struct Entry<T> {
    pub product: Seq<char>,
    pub state: DeviceAcquiredState<T>,
}

/// The product label of a device that was just found.
pub open spec fn default_product() -> Seq<char> {
    "TODO:"@
}

impl<T> Entry<T> {
    /// The entry of a device that was just found.
    pub open spec fn fresh() -> Entry<T> {
        Entry { product: default_product(), state: DeviceAcquiredState::Available }
    }

    /// This entry in another state.
    pub open spec fn with(self, state: DeviceAcquiredState<T>) -> Entry<T> {
        Entry { product: self.product, state }
    }
}

/// One device: its product label and where it stands.
pub struct DeviceEntry<T> {
    acquired: DeviceAcquiredState<T>,
    product: String,
}

impl<T> View for DeviceEntry<T> {
    type V = Entry<T>;

    closed spec fn view(&self) -> Entry<T> {
        Entry { product: self.product@, state: self.acquired }
    }
}

impl<T> DeviceEntry<T> {
    /// An available device with the given product label.
    pub fn new(product: &str) -> (r: DeviceEntry<T>)
        ensures
            r@ == (Entry::<T> { product: product@, state: DeviceAcquiredState::Available }),
    {
        DeviceEntry { acquired: DeviceAcquiredState::Available, product: product.to_owned() }
    }

    pub fn product(&self) -> (r: &str)
        ensures
            r@ == self@.product,
    {
        self.product.as_str()
    }

    /// A caller asks for the device. Free, it is kept for that caller. Held
    /// by a session, it is set to releasing and the session's notifier is
    /// handed out. In the middle of a handshake, nothing changes.
    pub fn request(&mut self) -> (step: AcquireStep<T>)
        ensures
            final(self)@ == old(self)@.with(old(self)@.state.requested()),
            step == old(self)@.state.answer(),
    {
        let mut state = DeviceAcquiredState::Releasing;
        core::mem::swap(&mut self.acquired, &mut state);
        match state {
            DeviceAcquiredState::Available => {
                self.acquired = DeviceAcquiredState::Opening;
                AcquireStep::Open
            },
            DeviceAcquiredState::Acquired(tx) => AcquireStep::Evict(tx),
            DeviceAcquiredState::Releasing => AcquireStep::Busy,
            DeviceAcquiredState::Opening => {
                self.acquired = DeviceAcquiredState::Opening;
                AcquireStep::Busy
            },
        }
    }

    /// Hands in the notifier of the session that now holds the device. It is
    /// taken only while the device is kept for a caller that opens it;
    /// otherwise it comes back and nothing changes.
    pub fn acquire(&mut self, tx: T) -> (refused: Option<T>)
        ensures
            final(self)@ == old(self)@.with(old(self)@.state.granted(tx)),
            old(self)@.state is Opening ==> refused is None,
            !(old(self)@.state is Opening) ==> refused == Some(tx),
    {
        match self.acquired {
            DeviceAcquiredState::Opening => {
                self.acquired = DeviceAcquiredState::Acquired(tx);
                None
            },
            _ => Some(tx),
        }
    }

    /// Lets go of the device: whatever its state was, it is available
    /// afterwards, under the same product label. Where a session held it, the
    /// session's notifier is handed out: the caller signals it and waits
    /// until the session has let go of the hardware handle. Callers that may
    /// meet others at the same device use `request` and `acknowledge`
    /// instead, which keep the device from being granted in between.
    pub fn release(&mut self) -> (tx: Option<T>)
        ensures
            final(self)@ == old(self)@.with(DeviceAcquiredState::Available),
            old(self)@.state matches DeviceAcquiredState::Acquired(t) ==> tx == Some(t),
            !(old(self)@.state is Acquired) ==> tx is None,
    {
        let mut state = DeviceAcquiredState::Available;
        core::mem::swap(&mut self.acquired, &mut state);
        match state {
            DeviceAcquiredState::Acquired(tx) => Some(tx),
            _ => None,
        }
    }

    /// Records that the old session acknowledged its teardown. Says whether
    /// one was awaited.
    pub fn acknowledge(&mut self) -> (awaited: bool)
        ensures
            final(self)@ == old(self)@.with(old(self)@.state.acknowledged()),
            awaited == (old(self)@.state is Releasing),
    {
        match self.acquired {
            DeviceAcquiredState::Releasing => {
                self.acquired = DeviceAcquiredState::Opening;
                true
            },
            _ => false,
        }
    }

    /// Gives the device back where the caller that kept it could not open
    /// it. Says whether it was kept.
    pub fn abort(&mut self) -> (kept: bool)
        ensures
            final(self)@ == old(self)@.with(old(self)@.state.aborted()),
            kept == (old(self)@.state is Opening),
    {
        match self.acquired {
            DeviceAcquiredState::Opening => {
                self.acquired = DeviceAcquiredState::Available;
                true
            },
            _ => false,
        }
    }
}

/// One line of the device list.
#[derive(Clone, Debug, PartialEq, Eq)]
pub struct DeviceInfo {
    pub path: String,
    pub product: String,
}

struct Slot<T> {
    path: String,
    entry: DeviceEntry<T>,
}

/// The registry: every known device by its path.
pub struct USBDevices<T> {
    devices: Vec<Slot<T>>,
}

spec fn at_path<T>(slots: Seq<Slot<T>>, i: int, p: Seq<char>) -> bool {
    0 <= i < slots.len() && slots[i].path@ == p
}

spec fn holds<T>(slots: Seq<Slot<T>>, p: Seq<char>) -> bool {
    exists|i: int| at_path(slots, i, p)
}

spec fn distinct<T>(slots: Seq<Slot<T>>) -> bool {
    forall|i: int, j: int|
        0 <= i < slots.len() && 0 <= j < slots.len() && i != j ==> #[trigger] slots[i].path@
            != #[trigger] slots[j].path@
}

spec fn map_of<T>(slots: Seq<Slot<T>>) -> Map<Seq<char>, Entry<T>> {
    Map::new(
        |p: Seq<char>| holds(slots, p),
        |p: Seq<char>| slots[choose|i: int| at_path(slots, i, p)].entry@,
    )
}

proof fn lemma_map_at<T>(slots: Seq<Slot<T>>, i: int)
    requires
        distinct(slots),
        0 <= i < slots.len(),
    ensures
        map_of(slots).contains_key(slots[i].path@),
        map_of(slots)[slots[i].path@] == slots[i].entry@,
{
    let p = slots[i].path@;
    assert(at_path(slots, i, p));
    let j = choose|j: int| at_path(slots, j, p);
    assert(j == i);
}

proof fn lemma_map_push<T>(slots: Seq<Slot<T>>, slot: Slot<T>)
    requires
        distinct(slots),
        !holds(slots, slot.path@),
    ensures
        distinct(slots.push(slot)),
        map_of(slots.push(slot)) == map_of(slots).insert(slot.path@, slot.entry@),
{
    let next = slots.push(slot);
    assert forall|i: int, j: int|
        0 <= i < next.len() && 0 <= j < next.len() && i != j implies #[trigger] next[i].path@
        != #[trigger] next[j].path@ by {
        if i < slots.len() {
            assert(at_path(slots, i, next[i].path@));
        }
        if j < slots.len() {
            assert(at_path(slots, j, next[j].path@));
        }
    }
    assert forall|p: Seq<char>| #[trigger]
        map_of(next).contains_key(p) == map_of(slots).insert(
            slot.path@,
            slot.entry@,
        ).contains_key(p) by {
        if holds(next, p) {
            let i = choose|i: int| at_path(next, i, p);
            if i < slots.len() {
                assert(at_path(slots, i, p));
            }
        }
        if holds(slots, p) {
            let i = choose|i: int| at_path(slots, i, p);
            assert(at_path(next, i, p));
        }
        if p == slot.path@ {
            assert(at_path(next, slots.len() as int, p));
        }
    }
    assert forall|p: Seq<char>| map_of(next).contains_key(p) implies #[trigger] map_of(next)[p]
        == map_of(slots).insert(slot.path@, slot.entry@)[p] by {
        let i = choose|i: int| at_path(next, i, p);
        lemma_map_at(next, i);
        if i < slots.len() {
            lemma_map_at(slots, i);
        }
    }
    assert(map_of(next) =~= map_of(slots).insert(slot.path@, slot.entry@));
}

proof fn lemma_map_update<T>(slots: Seq<Slot<T>>, i: int, slot: Slot<T>)
    requires
        distinct(slots),
        0 <= i < slots.len(),
        slot.path@ == slots[i].path@,
    ensures
        distinct(slots.update(i, slot)),
        map_of(slots.update(i, slot)) == map_of(slots).insert(slot.path@, slot.entry@),
{
    let next = slots.update(i, slot);
    assert forall|a: int, b: int|
        0 <= a < next.len() && 0 <= b < next.len() && a != b implies #[trigger] next[a].path@
        != #[trigger] next[b].path@ by {
        assert(next[a].path@ == slots[a].path@);
        assert(next[b].path@ == slots[b].path@);
    }
    assert forall|p: Seq<char>| #[trigger]
        map_of(next).contains_key(p) == map_of(slots).insert(
            slot.path@,
            slot.entry@,
        ).contains_key(p) by {
        if holds(next, p) {
            let a = choose|a: int| at_path(next, a, p);
            assert(at_path(slots, a, p));
        }
        if holds(slots, p) {
            let a = choose|a: int| at_path(slots, a, p);
            assert(at_path(next, a, p));
        }
        if p == slot.path@ {
            assert(at_path(next, i, p));
        }
    }
    assert forall|p: Seq<char>| map_of(next).contains_key(p) implies #[trigger] map_of(next)[p]
        == map_of(slots).insert(slot.path@, slot.entry@)[p] by {
        let a = choose|a: int| at_path(next, a, p);
        lemma_map_at(next, a);
        lemma_map_at(slots, a);
    }
    assert(map_of(next) =~= map_of(slots).insert(slot.path@, slot.entry@));
}

proof fn lemma_map_len<T>(slots: Seq<Slot<T>>)
    requires
        distinct(slots),
    ensures
        map_of(slots).dom().finite(),
        map_of(slots).dom().len() == slots.len(),
    decreases slots.len(),
{
    if slots.len() == 0 {
        assert(map_of(slots) =~= Map::<Seq<char>, Entry<T>>::empty());
    } else {
        let init = slots.drop_last();
        let last = slots.last();
        assert(distinct(init)) by {
            assert forall|i: int, j: int|
                0 <= i < init.len() && 0 <= j < init.len() && i != j implies #[trigger] init[i].path@
                != #[trigger] init[j].path@ by {
                assert(init[i].path@ == slots[i].path@);
                assert(init[j].path@ == slots[j].path@);
            }
        }
        assert(!holds(init, last.path@)) by {
            if holds(init, last.path@) {
                let a = choose|a: int| at_path(init, a, last.path@);
                assert(slots[a].path@ == slots[slots.len() - 1].path@);
            }
        }
        lemma_map_len(init);
        lemma_map_push(init, last);
        assert(init.push(last) =~= slots);
    }
}

proof fn lemma_slot_changed<T>(before: Seq<Slot<T>>, after: Seq<Slot<T>>, i: int)
    requires
        distinct(before),
        0 <= i < before.len(),
        after.len() == before.len(),
        forall|j: int| 0 <= j < before.len() && j != i ==> after[j] == before[j],
        after[i].path@ == before[i].path@,
    ensures
        distinct(after),
        map_of(before).contains_key(before[i].path@),
        map_of(before)[before[i].path@] == before[i].entry@,
        map_of(after) == map_of(before).insert(before[i].path@, after[i].entry@),
        after[i].entry@ == before[i].entry@ ==> map_of(after) == map_of(before),
{
    lemma_map_at(before, i);
    lemma_map_update(before, i, after[i]);
    assert(after =~= before.update(i, after[i]));
    if after[i].entry@ == before[i].entry@ {
        assert(map_of(after) =~= map_of(before));
    }
}

/// Finds the slot of the device at `path`.
fn position<T>(slots: &Vec<Slot<T>>, path: &str) -> (r: Option<usize>)
    ensures
        match r {
            Some(i) => at_path(slots@, i as int, path@),
            None => !holds(slots@, path@),
        },
{
    let mut k: usize = 0;
    while k < slots.len()
        invariant
            k <= slots@.len(),
            forall|i: int| 0 <= i < k ==> !at_path(slots@, i, path@),
        decreases slots@.len() - k,
    {
        if same_text(slots[k].path.as_str(), path) {
            return Some(k);
        }
        k += 1;
    }
    None
}

impl<T> View for USBDevices<T> {
    type V = Map<Seq<char>, Entry<T>>;

    closed spec fn view(&self) -> Map<Seq<char>, Entry<T>> {
        map_of(self.devices@)
    }
}

impl<T> USBDevices<T> {
    /// The registry's invariant: no path stands in it twice. Every registry
    /// that this module hands out meets it, and every method keeps it.
    pub closed spec fn wf(self) -> bool {
        distinct(self.devices@)
    }

    /// A registry that knows no device.
    pub fn new() -> (r: USBDevices<T>)
        ensures
            r.wf(),
            r@ == Map::<Seq<char>, Entry<T>>::empty(),
    {
        let r = USBDevices { devices: Vec::new() };
        assert(r@ =~= Map::<Seq<char>, Entry<T>>::empty());
        r
    }

    /// The number of known devices.
    pub fn len(&self) -> (n: usize)
        requires
            self.wf(),
        ensures
            self@.dom().finite(),
            n == self@.dom().len(),
            (n == 0) == (self@ == Map::<Seq<char>, Entry<T>>::empty()),
    {
        proof {
            lemma_map_len(self.devices@);
            if self.devices@.len() > 0 {
                lemma_map_at(self.devices@, 0);
            } else {
                assert(self@ =~= Map::<Seq<char>, Entry<T>>::empty());
            }
        }
        self.devices.len()
    }

    /// A caller asks for the device at `path`.
    ///
    /// Where no device is known at `path` the answer is `NoDevice` and
    /// nothing changes. Otherwise the entry moves on as
    /// `DeviceAcquiredState::requested` says and the caller is told what
    /// `DeviceAcquiredState::answer` says: to open a free device, to evict
    /// the session that holds it, or that another caller is at it.
    pub fn acquire_device(&mut self, path: &str) -> (step: AcquireStep<T>)
        requires
            old(self).wf(),
        ensures
            final(self).wf(),
            !old(self)@.contains_key(path@) ==> step == AcquireStep::<T>::NoDevice && final(self)@
                == old(self)@,
            old(self)@.contains_key(path@) ==> step == old(self)@[path@].state.answer()
                && final(self)@ == old(self)@.insert(
                path@,
                old(self)@[path@].with(old(self)@[path@].state.requested()),
            ),
    {
        match position(&self.devices, path) {
            None => AcquireStep::NoDevice,
            Some(i) => {
                let step = self.devices[i].entry.request();
                proof {
                    lemma_slot_changed(old(self).devices@, self.devices@, i as int);
                }
                step
            },
        }
    }
}

/// What the presence detector does after a pass over the bus.
#[derive(Clone, Copy, Debug, PartialEq, Eq, Structural)]
pub enum PresenceStep {
    /// Pause for `POLL_INTERVAL_MS`, refresh, and ask again with this
    /// `last_seen`.
    Poll { last_seen: Option<u64> },
    /// Stop polling until the next notification; then start again with no
    /// `last_seen`.
    Wait,
}

/// Milliseconds from `since` to `now`; none where the clock stood still or
/// went back.
pub open spec fn elapsed_ms(since: u64, now: u64) -> int {
    if now >= since {
        now - since
    } else {
        0
    }
}

/// What the presence detector does after a pass that found the registry
/// empty or not, at time `now`, where `last_seen` is the time at which the
/// registry was first found empty, if it was.
pub open spec fn presence_step(empty: bool, last_seen: Option<u64>, now: u64) -> PresenceStep {
    if !empty {
        PresenceStep::Poll { last_seen: None }
    } else {
        match last_seen {
            None => PresenceStep::Poll { last_seen: Some(now) },
            Some(since) => if elapsed_ms(since, now) > EMPTY_LIMIT_MS {
                PresenceStep::Wait
            } else {
                PresenceStep::Poll { last_seen: Some(since) }
            },
        }
    }
}

/// Whether the device `seen[k]` is a supported one at path `p`.
pub open spec fn sighting(seen: Seq<UsbDescriptor>, k: int, p: Seq<char>) -> bool {
    0 <= k < seen.len() && seen[k].supported() && seen[k].path() == p
}

/// Whether a supported device was seen at path `p`.
pub open spec fn sighted(seen: Seq<UsbDescriptor>, p: Seq<char>) -> bool {
    exists|k: int| sighting(seen, k, p)
}

/// The registry after a pass over the bus that saw `seen`: it knows the
/// supported devices that were seen and no others. A device it knew keeps
/// its entry; a new one is available.
pub open spec fn refreshed<T>(known: Map<Seq<char>, Entry<T>>, seen: Seq<UsbDescriptor>) -> Map<
    Seq<char>,
    Entry<T>,
> {
    Map::new(
        |p: Seq<char>| sighted(seen, p),
        |p: Seq<char>|
            if known.contains_key(p) {
                known[p]
            } else {
                Entry::fresh()
            },
    )
}

spec fn path_at(paths: Seq<String>, j: int, p: Seq<char>) -> bool {
    0 <= j < paths.len() && paths[j]@ == p
}

spec fn listed(paths: Seq<String>, p: Seq<char>) -> bool {
    exists|j: int| path_at(paths, j, p)
}

/// Whether `path` is one of `paths`.
fn is_listed(paths: &Vec<String>, path: &str) -> (r: bool)
    ensures
        r == listed(paths@, path@),
{
    let mut k: usize = 0;
    while k < paths.len()
        invariant
            k <= paths@.len(),
            forall|j: int| 0 <= j < k ==> !path_at(paths@, j, path@),
        decreases paths@.len() - k,
    {
        if same_text(paths[k].as_str(), path) {
            assert(path_at(paths@, k as int, path@));
            return true;
        }
        k += 1;
    }
    false
}

spec fn sighted_within(seen: Seq<UsbDescriptor>, k: int, p: Seq<char>) -> bool {
    exists|i: int| i < k && sighting(seen, i, p)
}

/// The paths of the supported devices among `seen`.
fn seen_paths(seen: &Vec<UsbDescriptor>) -> (paths: Vec<String>)
    ensures
        forall|p: Seq<char>| listed(paths@, p) == sighted(seen@, p),
{
    let mut paths: Vec<String> = Vec::new();
    let mut k: usize = 0;
    while k < seen.len()
        invariant
            k <= seen@.len(),
            forall|j: int|
                0 <= j < paths@.len() ==> sighted_within(seen@, k as int, #[trigger] paths@[j]@),
            forall|i: int|
                0 <= i < k && seen@[i].supported() ==> listed(paths@, #[trigger] seen@[i].path()),
        decreases seen@.len() - k,
    {
        let d = seen[k];
        let ghost before = paths@;
        if d.vendor_id == VID && d.product_id == PID {
            let path = make_path(d.bus_number, d.address);
            paths.push(path);
            proof {
                assert(sighting(seen@, k as int, path@));
                assert(path_at(paths@, before.len() as int, path@));
                assert forall|i: int| 0 <= i < k && seen@[i].supported() implies listed(
                    paths@,
                    #[trigger] seen@[i].path(),
                ) by {
                    assert(listed(before, seen@[i].path()));
                    let j = choose|j: int| path_at(before, j, seen@[i].path());
                    assert(path_at(paths@, j, seen@[i].path()));
                }
            }
        }
        proof {
            assert forall|j: int| 0 <= j < paths@.len() implies sighted_within(
                seen@,
                k + 1,
                #[trigger] paths@[j]@,
            ) by {
                if j < before.len() {
                    assert(paths@[j] == before[j]);
                    assert(sighted_within(seen@, k as int, before[j]@));
                    let i = choose|i: int| i < k && sighting(seen@, i, before[j]@);
                    assert(i < k + 1 && sighting(seen@, i, paths@[j]@));
                } else {
                    assert(k < k + 1 && sighting(seen@, k as int, paths@[j]@));
                }
            }
        }
        k += 1;
    }
    proof {
        assert forall|p: Seq<char>| listed(paths@, p) == sighted(seen@, p) by {
            if listed(paths@, p) {
                let j = choose|j: int| path_at(paths@, j, p);
                assert(sighted_within(seen@, k as int, paths@[j]@));
                let i = choose|i: int| i < k && sighting(seen@, i, paths@[j]@);
                assert(sighting(seen@, i, p));
            }
            if sighted(seen@, p) {
                let i = choose|i: int| sighting(seen@, i, p);
                assert(listed(paths@, seen@[i].path()));
            }
        }
    }
    paths
}

impl<T> USBDevices<T> {
    /// Records that the session evicted from the device at `path` has let go
    /// of the hardware handle. The device is from then on kept for the caller
    /// that evicted it, who may now open the handle. Says whether an
    /// acknowledgment was awaited; where none was, or the device is gone,
    /// nothing changes and the handle must not be opened.
    pub fn teardown_acknowledged(&mut self, path: &str) -> (awaited: bool)
        requires
            old(self).wf(),
        ensures
            final(self).wf(),
            awaited == (old(self)@.contains_key(path@) && old(self)@[path@].state is Releasing),
            awaited ==> final(self)@ == old(self)@.insert(
                path@,
                old(self)@[path@].with(DeviceAcquiredState::Opening),
            ),
            !awaited ==> final(self)@ == old(self)@,
    {
        match position(&self.devices, path) {
            None => false,
            Some(i) => {
                let awaited = self.devices[i].entry.acknowledge();
                proof {
                    lemma_slot_changed(old(self).devices@, self.devices@, i as int);
                }
                awaited
            },
        }
    }

    /// Hands in the teardown notifier of the session that was started on the
    /// device at `path`. It is taken, and the device is acquired, only while
    /// the device is kept for a caller that opens it. Otherwise the notifier
    /// comes back and nothing changes: the device is gone or was never
    /// granted, and the session must end.
    pub fn finish_acquire(&mut self, path: &str, tx: T) -> (refused: Option<T>)
        requires
            old(self).wf(),
        ensures
            final(self).wf(),
            refused is None <==> old(self)@.contains_key(path@) && old(self)@[path@].state
                is Opening,
            refused is None ==> final(self)@ == old(self)@.insert(
                path@,
                old(self)@[path@].with(DeviceAcquiredState::Acquired(tx)),
            ),
            refused is Some ==> refused == Some(tx) && final(self)@ == old(self)@,
    {
        match position(&self.devices, path) {
            None => Some(tx),
            Some(i) => {
                let refused = self.devices[i].entry.acquire(tx);
                proof {
                    lemma_slot_changed(old(self).devices@, self.devices@, i as int);
                }
                refused
            },
        }
    }

    /// Gives back the device at `path` where the caller that kept it could
    /// not open it. Says whether it was kept; where it was not, nothing
    /// changes.
    pub fn abort_acquire(&mut self, path: &str) -> (kept: bool)
        requires
            old(self).wf(),
        ensures
            final(self).wf(),
            kept == (old(self)@.contains_key(path@) && old(self)@[path@].state is Opening),
            kept ==> final(self)@ == old(self)@.insert(
                path@,
                old(self)@[path@].with(DeviceAcquiredState::Available),
            ),
            !kept ==> final(self)@ == old(self)@,
    {
        match position(&self.devices, path) {
            None => false,
            Some(i) => {
                let kept = self.devices[i].entry.abort();
                proof {
                    lemma_slot_changed(old(self).devices@, self.devices@, i as int);
                }
                kept
            },
        }
    }

    /// Lists the known devices: each once, with its path and product label.
    pub fn devices(&self) -> (list: Vec<DeviceInfo>)
        requires
            self.wf(),
        ensures
            self@.dom().finite(),
            list@.len() == self@.dom().len(),
            forall|i: int|
                0 <= i < list@.len() ==> self@.contains_key(#[trigger] list@[i].path@)
                    && list@[i].product@ == self@[list@[i].path@].product,
            forall|i: int, j: int|
                0 <= i < list@.len() && 0 <= j < list@.len() && i != j ==> #[trigger] list@[i].path@
                    != #[trigger] list@[j].path@,
            forall|p: Seq<char>|
                self@.contains_key(p) ==> exists|i: int|
                    0 <= i < list@.len() && #[trigger] list@[i].path@ == p,
    {
        let mut list: Vec<DeviceInfo> = Vec::new();
        let mut k: usize = 0;
        while k < self.devices.len()
            invariant
                k <= self.devices@.len(),
                list@.len() == k,
                distinct(self.devices@),
                forall|i: int|
                    0 <= i < k ==> (#[trigger] list@[i]).path@ == self.devices@[i].path@
                        && list@[i].product@ == self.devices@[i].entry@.product,
            decreases self.devices@.len() - k,
        {
            let slot = &self.devices[k];
            list.push(
                DeviceInfo { path: slot.path.clone(), product: slot.entry.product().to_owned() },
            );
            k += 1;
        }
        proof {
            lemma_map_len(self.devices@);
            assert forall|i: int| 0 <= i < list@.len() implies self@.contains_key(
                #[trigger] list@[i].path@,
            ) && list@[i].product@ == self@[list@[i].path@].product by {
                lemma_map_at(self.devices@, i);
            }
            assert forall|p: Seq<char>| self@.contains_key(p) implies exists|i: int|
                0 <= i < list@.len() && #[trigger] list@[i].path@ == p by {
                let i = choose|i: int| at_path(self.devices@, i, p);
                assert(list@[i].path@ == p);
            }
        }
        list
    }

    /// Says what the presence detector does next, after a pass over the bus
    /// at time `now` (in milliseconds).
    ///
    /// While the registry knows a device, polling goes on. When the registry
    /// is first found empty, that time is kept in `last_seen`. Polling goes
    /// on until the registry has been empty for more than `EMPTY_LIMIT_MS`,
    /// and then stops until the next notification.
    pub fn presence_detector(&self, last_seen: Option<u64>, now: u64) -> (step: PresenceStep)
        requires
            self.wf(),
        ensures
            step == presence_step(self@ == Map::<Seq<char>, Entry<T>>::empty(), last_seen, now),
    {
        if self.len() == 0 {
            match last_seen {
                None => PresenceStep::Poll { last_seen: Some(now) },
                Some(since) => {
                    if now >= since && now - since > EMPTY_LIMIT_MS {
                        PresenceStep::Wait
                    } else {
                        PresenceStep::Poll { last_seen: Some(since) }
                    }
                },
            }
        } else {
            PresenceStep::Poll { last_seen: None }
        }
    }
}

proof fn lemma_holds_push<T>(slots: Seq<Slot<T>>, slot: Slot<T>, p: Seq<char>)
    requires
        holds(slots, p) || slot.path@ == p,
    ensures
        holds(slots.push(slot), p),
{
    if holds(slots, p) {
        let a = choose|a: int| at_path(slots, a, p);
        assert(at_path(slots.push(slot), a, p));
    } else {
        assert(at_path(slots.push(slot), slots.len() as int, p));
    }
}

impl<T> USBDevices<T> {
    /// Brings the registry up to date with a pass over the bus that saw
    /// `seen`.
    ///
    /// Of the devices seen, those with the supported vendor and product
    /// identifiers count. One that the registry did not know is entered as
    /// available. One that it knew keeps its entry as it is. A known device
    /// that was not seen is removed, whatever its state; the notifier of a
    /// session that held it is dropped with it.
    pub fn refresh(&mut self, seen: &Vec<UsbDescriptor>)
        requires
            old(self).wf(),
        ensures
            final(self).wf(),
            final(self)@ == refreshed(old(self)@, seen@),
    {
        let paths = seen_paths(seen);
        let mut known: Vec<Slot<T>> = Vec::new();
        core::mem::swap(&mut self.devices, &mut known);
        let ghost orig = known@;
        let mut kept: Vec<Slot<T>> = Vec::new();
        let ghost mut src: Seq<int> = Seq::empty();
        while known.len() > 0
            invariant
                known@.len() <= orig.len(),
                known@ == orig.take(known@.len() as int),
                distinct(orig),
                distinct(kept@),
                src.len() == kept@.len(),
                forall|a: int|
                    0 <= a < kept@.len() ==> known@.len() <= #[trigger] src[a] < orig.len()
                        && kept@[a] == orig[src[a]] && listed(paths@, kept@[a].path@),
                forall|i: int|
                    known@.len() <= i < orig.len() && listed(paths@, orig[i].path@) ==> holds(
                        kept@,
                        #[trigger] orig[i].path@,
                    ),
            decreases known@.len(),
        {
            let ghost n = known@.len() - 1;
            let ghost before = kept@;
            let slot = known.pop().unwrap();
            assert(slot == orig[n]);
            if is_listed(&paths, slot.path.as_str()) {
                proof {
                    assert(!holds(kept@, slot.path@)) by {
                        if holds(kept@, slot.path@) {
                            let a = choose|a: int| at_path(kept@, a, slot.path@);
                            assert(orig[src[a]].path@ == orig[n].path@);
                        }
                    }
                    lemma_map_push(kept@, slot);
                    src = src.push(n);
                }
                kept.push(slot);
                proof {
                    assert forall|i: int|
                        n <= i < orig.len() && listed(paths@, orig[i].path@) implies holds(
                        kept@,
                        #[trigger] orig[i].path@,
                    ) by {
                        lemma_holds_push(before, slot, orig[i].path@);
                    }
                }
            }
        }
        let ghost first = kept@;
        let mut j: usize = 0;
        while j < paths.len()
            invariant
                j <= paths@.len(),
                distinct(orig),
                distinct(kept@),
                first.len() <= kept@.len(),
                kept@.take(first.len() as int) == first,
                src.len() == first.len(),
                forall|a: int|
                    0 <= a < first.len() ==> 0 <= #[trigger] src[a] < orig.len() && first[a]
                        == orig[src[a]] && listed(paths@, first[a].path@),
                forall|i: int|
                    0 <= i < orig.len() && listed(paths@, orig[i].path@) ==> holds(
                        first,
                        #[trigger] orig[i].path@,
                    ),
                forall|a: int|
                    first.len() <= a < kept@.len() ==> listed(paths@, #[trigger] kept@[a].path@)
                        && !holds(orig, kept@[a].path@) && kept@[a].entry@ == Entry::<T>::fresh(),
                forall|b: int| 0 <= b < j ==> holds(kept@, #[trigger] paths@[b]@),
            decreases paths@.len() - j,
        {
            let ghost before = kept@;
            if position(&kept, paths[j].as_str()).is_none() {
                let slot = Slot {
                    path: paths[j].clone(),
                    entry: DeviceEntry::new("TODO:"),
                };
                proof {
                    assert(path_at(paths@, j as int, slot.path@));
                    assert(!holds(orig, slot.path@)) by {
                        if holds(orig, slot.path@) {
                            let i = choose|i: int| at_path(orig, i, slot.path@);
                            assert(holds(first, orig[i].path@));
                            let a = choose|a: int| at_path(first, a, orig[i].path@);
                            assert(before[a] == first[a]);
                            assert(at_path(before, a, slot.path@));
                        }
                    }
                    lemma_map_push(kept@, slot);
                }
                kept.push(slot);
                proof {
                    assert(kept@.take(first.len() as int) =~= first);
                    assert forall|b: int| 0 <= b < j + 1 implies holds(
                        kept@,
                        #[trigger] paths@[b]@,
                    ) by {
                        lemma_holds_push(before, slot, paths@[b]@);
                    }
                }
            }
            j += 1;
        }
        self.devices = kept;
        proof {
            let now = self.devices@;
            let target = refreshed(old(self)@, seen@);
            assert forall|p: Seq<char>| #[trigger] self@.contains_key(p) == target.contains_key(
                p,
            ) by {
                if holds(now, p) {
                    let a = choose|a: int| at_path(now, a, p);
                    if a < first.len() {
                        assert(now[a] == first[a]);
                        assert(0 <= src[a]);
                        assert(listed(paths@, first[a].path@));
                    } else {
                        assert(listed(paths@, now[a].path@));
                    }
                }
                if sighted(seen@, p) {
                    assert(listed(paths@, p));
                    let b = choose|b: int| path_at(paths@, b, p);
                    assert(holds(now, paths@[b]@));
                }
            }
            assert forall|p: Seq<char>| self@.contains_key(p) implies #[trigger] self@[p]
                == target[p] by {
                let a = choose|a: int| at_path(now, a, p);
                lemma_map_at(now, a);
                if a < first.len() {
                    assert(now[a] == first[a]);
                    lemma_map_at(orig, src[a]);
                } else {
                    assert(!holds(orig, now[a].path@));
                }
            }
            assert(self@ =~= target);
        }
    }
}

/// Registry exclusivity, step by step: a notifier is taken only for a device
/// that is kept for the caller opening it; a device is kept that way only
/// when it was free, or when the session that held it has acknowledged its
/// teardown; and asking for a held device takes the holder's notifier out
/// of the registry. So an entry never stands for two sessions, and a second
/// session is not recorded before the first has let go.
pub proof fn lemma_exclusive<T>(state: DeviceAcquiredState<T>, tx: T)
    ensures
        state.granted(tx) == DeviceAcquiredState::Acquired(tx) ==> state is Opening || state
            == DeviceAcquiredState::Acquired(tx),
        !(state is Opening) ==> state.granted(tx) == state,
        state.requested() is Opening ==> state is Available || state is Opening,
        state.acknowledged() is Opening ==> state is Releasing || state is Opening,
        state.aborted() is Opening ==> false,
        !(state.requested() is Acquired),
        state.answer() is Open <==> state is Available,
        state.answer() is Evict <==> state is Acquired,
        state is Acquired ==> state.answer() == AcquireStep::Evict(state->Acquired_0),
{
}

/// Registry exclusivity, as a run: the device at `p` is free. A first caller
/// asks, is told to open it, and hands in the notifier `first`. A second
/// caller asks and is told to evict `first`. Until the teardown is
/// acknowledged, the notifier `second` is refused and any further caller is
/// told that the device is busy. After the acknowledgment `second` is taken,
/// and it is then the only notifier recorded for `p`.
pub proof fn lemma_acquire_twice<T>(
    known: Map<Seq<char>, Entry<T>>,
    p: Seq<char>,
    first: T,
    second: T,
)
    requires
        known.contains_key(p),
        known[p].state is Available,
    ensures
        ({
            let s0 = known[p].state;
            let s1 = s0.requested();
            let s2 = s1.granted(first);
            let s3 = s2.requested();
            let s4 = s3.acknowledged();
            let s5 = s4.granted(second);
            &&& s0.answer() == AcquireStep::<T>::Open
            &&& s1.answer() == AcquireStep::<T>::Busy
            &&& s2 == DeviceAcquiredState::Acquired(first)
            &&& s2.answer() == AcquireStep::Evict(first)
            &&& s3 == DeviceAcquiredState::<T>::Releasing
            &&& s3.granted(second) == s3
            &&& s3.answer() == AcquireStep::<T>::Busy
            &&& s4.answer() == AcquireStep::<T>::Busy
            &&& s5 == DeviceAcquiredState::Acquired(second)
        }),
{
}

/// Presence hysteresis: a pass that finds a device goes on polling and
/// forgets when the registry was last found empty. The first pass that finds
/// none keeps its time. Every later pass that finds none goes on polling
/// while no more than `EMPTY_LIMIT_MS` have gone by since that time, and
/// stops polling at the first pass after that.
pub proof fn lemma_presence_hysteresis(last_seen: Option<u64>, since: u64, now: u64)
    ensures
        presence_step(false, last_seen, now) == (PresenceStep::Poll { last_seen: None }),
        presence_step(true, None, since) == (PresenceStep::Poll { last_seen: Some(since) }),
        now - since > EMPTY_LIMIT_MS ==> presence_step(true, Some(since), now)
            == PresenceStep::Wait,
        now - since <= EMPTY_LIMIT_MS ==> presence_step(true, Some(since), now)
            == (PresenceStep::Poll { last_seen: Some(since) }),
{
}

} // verus!
