//! The registry of devices on offer.

use vstd::prelude::*;
use vstd::string::*;

use crate::protocol::device::{busid_rejection, UsbDevice};
use crate::protocol::discovery::device_models;
use crate::protocol::error::ProtocolError;
use crate::server::device::{converts_to, protocol_device, LocalUsbDevice};
use crate::server::error::ServerError;

verus! {

/// Identifies the session of a client that has imported a device.
pub type SessionId = u64;

/// Stands for an opened device that the caller holds.
pub type HandleId = u64;

/// A device on offer.
#[derive(Debug)]
pub struct ExportedDevice {
    pub device: LocalUsbDevice,
    /// The opened device.
    pub handle: HandleId,
    /// The session of the client that has imported the device, if one has.
    pub active_session: Option<SessionId>,
}

/// A device in the registry, under the bus ID it was bound by.
#[derive(Debug)]
pub struct Entry {
    pub bus_id: String,
    pub exported: ExportedDevice,
}

/// The registry of devices on offer. No bus ID occurs twice; devices stay in
/// the order in which they were bound.
#[derive(Debug)]
pub struct ExportRegistry {
    entries: Vec<Entry>,
    next_session_id: u64,
}

/// Where a bus ID first stands, or the length where it does not.
pub open spec fn place_of(entries: Seq<Entry>, bus_id: Seq<char>) -> int
    decreases entries.len(),
{
    if entries.len() == 0 || entries[0].bus_id@ == bus_id {
        0
    } else {
        1 + place_of(entries.skip(1), bus_id)
    }
}

/// No bus ID occurs twice.
pub open spec fn distinct(entries: Seq<Entry>) -> bool {
    forall|i: int, j: int|
        0 <= i < j < entries.len() ==> #[trigger] entries[i].bus_id@
            != #[trigger] entries[j].bus_id@
}

/// Where a bus ID stands, it is the first place.
proof fn lemma_place(entries: Seq<Entry>, bus_id: Seq<char>, i: int)
    requires
        0 <= i <= entries.len(),
        forall|j: int| 0 <= j < i ==> (#[trigger] entries[j]).bus_id@ != bus_id,
        i < entries.len() ==> entries[i].bus_id@ == bus_id,
    ensures
        place_of(entries, bus_id) == i,
    decreases i,
{
    if i > 0 {
        assert(entries[0].bus_id@ != bus_id);
        let rest = entries.skip(1);
        assert forall|j: int| 0 <= j < i - 1 implies (#[trigger] rest[j]).bus_id@ != bus_id by {
            assert(entries[j + 1].bus_id@ != bus_id);
        }
        lemma_place(rest, bus_id, i - 1);
    }
}

impl ExportRegistry {
    /// The devices on offer, in the order in which they were bound.
    pub closed spec fn entries(self) -> Seq<Entry> {
        self.entries@
    }

    /// The session that the next import gets.
    pub closed spec fn next_session(self) -> u64 {
        self.next_session_id
    }

    /// No bus ID occurs twice.
    pub open spec fn well_formed(self) -> bool {
        distinct(self.entries())
    }

    /// Whether a device is on offer under a bus ID.
    pub open spec fn bound(self, bus_id: Seq<char>) -> bool {
        place_of(self.entries(), bus_id) < self.entries().len()
    }

    /// The device on offer under a bus ID.
    pub open spec fn exported(self, bus_id: Seq<char>) -> ExportedDevice {
        self.entries()[place_of(self.entries(), bus_id)].exported
    }

    /// The same registry with one more device on offer, which no client has
    /// imported.
    pub open spec fn with_device(
        self,
        after: ExportRegistry,
        bus_id: Seq<char>,
        device: LocalUsbDevice,
        handle: HandleId,
    ) -> bool {
        &&& after.next_session() == self.next_session()
        &&& after.entries().len() == self.entries().len() + 1
        &&& after.entries().drop_last() == self.entries()
        &&& after.entries().last().bus_id@ == bus_id
        &&& after.entries().last().exported == (ExportedDevice {
            device,
            handle,
            active_session: None,
        })
    }

    /// The same registry without the device of a bus ID.
    pub open spec fn without_device(self, after: ExportRegistry, bus_id: Seq<char>) -> bool {
        &&& after.entries() == self.entries().remove(place_of(self.entries(), bus_id))
        &&& after.next_session() == self.next_session()
    }

    /// No two clients have the same session, and none has one that is still to
    /// come.
    pub open spec fn sessions_differ(self) -> bool {
        &&& forall|i: int|
            0 <= i < self.entries().len() ==> ((
            #[trigger] self.entries()[i]).exported.active_session matches Some(s) ==> s
                < self.next_session())
        &&& forall|i: int, j: int|
            0 <= i < j < self.entries().len() && (
            #[trigger] self.entries()[i]).exported.active_session is Some ==> (
            #[trigger] self.entries()[j]).exported.active_session
                != self.entries()[i].exported.active_session
    }

    /// The same registry but for the session of one device and the session
    /// that comes next.
    pub open spec fn with_session(
        self,
        after: ExportRegistry,
        bus_id: Seq<char>,
        session: Option<SessionId>,
    ) -> bool {
        let i = place_of(self.entries(), bus_id);
        &&& after.entries().len() == self.entries().len()
        &&& forall|j: int|
            0 <= j < self.entries().len() && j != i ==> #[trigger] after.entries()[j]
                == self.entries()[j]
        &&& after.entries()[i].bus_id == self.entries()[i].bus_id
        &&& after.entries()[i].exported == (ExportedDevice {
            active_session: session,
            ..self.entries()[i].exported
        })
    }

    /// An empty registry. Sessions are counted from 1.
    pub fn new() -> (r: Self)
        ensures
            r.well_formed(),
            r.entries() == Seq::<Entry>::empty(),
            r.next_session() == 1,
            r.sessions_differ(),
    {
        ExportRegistry { entries: Vec::new(), next_session_id: 1 }
    }

    fn find(&self, bus_id: &str) -> (i: usize)
        ensures
            i == place_of(self.entries@, bus_id@),
            i <= self.entries@.len(),
            i < self.entries@.len() ==> self.entries@[i as int].bus_id@ == bus_id@,
            forall|j: int| 0 <= j < i ==> (#[trigger] self.entries@[j]).bus_id@ != bus_id@,
    {
        let key = bus_id.to_owned();
        let mut i: usize = 0;
        while i < self.entries.len()
            invariant_except_break
                i <= self.entries@.len(),
                key@ == bus_id@,
                forall|j: int| 0 <= j < i ==> (#[trigger] self.entries@[j]).bus_id@ != bus_id@,
            ensures
                i <= self.entries@.len(),
                i < self.entries@.len() ==> self.entries@[i as int].bus_id@ == bus_id@,
                forall|j: int| 0 <= j < i ==> (#[trigger] self.entries@[j]).bus_id@ != bus_id@,
            decreases self.entries.len() - i,
        {
            if self.entries[i].bus_id == key {
                break;
            }
            i = i + 1;
        }
        proof {
            lemma_place(self.entries@, bus_id@, i as int);
        }
        i
    }

    /// Whether a device is on offer under a bus ID.
    pub fn contains(&self, bus_id: &str) -> (b: bool)
        ensures
            b == self.bound(bus_id@),
    {
        self.find(bus_id) < self.entries.len()
    }

    /// The number of devices on offer.
    pub fn len(&self) -> (n: usize)
        ensures
            n == self.entries().len(),
    {
        self.entries.len()
    }

    /// The devices on offer, in the order in which they were bound.
    pub fn inner(&self) -> (entries: &Vec<Entry>)
        ensures
            entries@ == self.entries(),
    {
        &self.entries
    }

    /// Put an opened device on offer. A bus ID that is on offer already is
    /// refused.
    pub fn bind_device_with(
        &mut self,
        bus_id: &str,
        device: LocalUsbDevice,
        handle: HandleId,
    ) -> (r: Result<(), ServerError>)
        requires
            old(self).well_formed(),
        ensures
            final(self).well_formed(),
            match r {
                Ok(_) => {
                    &&& !old(self).bound(bus_id@)
                    &&& old(self).with_device(*final(self), bus_id@, device, handle)
                },
                Err(ServerError::DeviceAlreadyBound { bus_id: b }) => {
                    &&& old(self).bound(bus_id@)
                    &&& b@ == bus_id@
                    &&& *final(self) == *old(self)
                },
                Err(_) => false,
            },
    {
        let i: usize = self.find(bus_id);
        if i < self.entries.len() {
            return Err(ServerError::DeviceAlreadyBound { bus_id: bus_id.to_owned() });
        }
        self.entries.push(
            Entry {
                bus_id: bus_id.to_owned(),
                exported: ExportedDevice { device, handle, active_session: None },
            },
        );
        assert(self.entries@.drop_last() =~= old(self).entries@);
        Ok(())
    }

    /// Put a device of this host on offer. A bus ID that is on offer already is
    /// refused first, then one that no device of this host has, then a device
    /// that could not be opened.
    pub fn bind_device(
        &mut self,
        bus_id: &str,
        local_devices: Vec<LocalUsbDevice>,
        opened: Result<HandleId, ServerError>,
    ) -> (r: Result<(), ServerError>)
        requires
            old(self).well_formed(),
        ensures
            final(self).well_formed(),
            match r {
                Ok(_) => {
                    let i = local_place(local_devices@, bus_id@);
                    &&& !old(self).bound(bus_id@)
                    &&& i < local_devices@.len()
                    &&& opened is Ok
                    &&& old(self).with_device(
                        *final(self),
                        bus_id@,
                        local_devices@[i],
                        opened->Ok_0,
                    )
                },
                Err(e) => {
                    &&& *final(self) == *old(self)
                    &&& if old(self).bound(bus_id@) {
                        e matches ServerError::DeviceAlreadyBound { bus_id: b } && b@ == bus_id@
                    } else if local_place(local_devices@, bus_id@) == local_devices@.len() {
                        e matches ServerError::DeviceNotFound { bus_id: b } && b@ == bus_id@
                    } else {
                        opened == Err::<HandleId, ServerError>(e)
                    }
                },
            },
    {
        if self.contains(bus_id) {
            return Err(ServerError::DeviceAlreadyBound { bus_id: bus_id.to_owned() });
        }
        let i: usize = find_local(&local_devices, bus_id);
        if i >= local_devices.len() {
            return Err(ServerError::DeviceNotFound { bus_id: bus_id.to_owned() });
        }
        match opened {
            Ok(handle) => {
                let mut devices = local_devices;
                let device = devices.remove(i);
                self.bind_device_with(bus_id, device, handle)
            },
            Err(e) => Err(e),
        }
    }

    /// Stop offering a device. The session of the client that has it, if one
    /// has, is handed back.
    pub fn unbind_device(&mut self, bus_id: &str) -> (r: Result<Option<SessionId>, ServerError>)
        requires
            old(self).well_formed(),
        ensures
            final(self).well_formed(),
            match r {
                Ok(session) => {
                    &&& old(self).bound(bus_id@)
                    &&& session == old(self).exported(bus_id@).active_session
                    &&& old(self).without_device(*final(self), bus_id@)
                    &&& !final(self).bound(bus_id@)
                },
                Err(ServerError::DeviceNotBound { bus_id: b }) => {
                    &&& !old(self).bound(bus_id@)
                    &&& b@ == bus_id@
                    &&& *final(self) == *old(self)
                },
                Err(_) => false,
            },
    {
        let i: usize = self.find(bus_id);
        if i >= self.entries.len() {
            return Err(ServerError::DeviceNotBound { bus_id: bus_id.to_owned() });
        }
        let entry = self.entries.remove(i);
        proof {
            let es = self.entries@;
            let was = old(self).entries@;
            assert forall|j: int| 0 <= j < es.len() implies (#[trigger] es[j]).bus_id@
                != bus_id@ by {
                if j >= i {
                    assert(es[j] == was[j + 1]);
                    assert(was[i as int].bus_id@ != was[j + 1].bus_id@);
                } else {
                    assert(es[j] == was[j]);
                }
            }
            lemma_place(es, bus_id@, es.len() as int);
            assert forall|a: int, b: int| 0 <= a < b < es.len() implies #[trigger] es[a].bus_id@
                != #[trigger] es[b].bus_id@ by {
                let x = if a < i {
                    a
                } else {
                    a + 1
                };
                let y = if b < i {
                    b
                } else {
                    b + 1
                };
                assert(es[a] == was[x] && es[b] == was[y]);
            }
        }
        Ok(entry.exported.active_session)
    }

    /// The devices on offer as the protocol describes them, in the order in
    /// which they were bound. The first that cannot be described ends it.
    pub fn list_devices(&self) -> (r: Result<Vec<UsbDevice>, ServerError>)
        ensures
            match r {
                Ok(ds) => {
                    &&& device_models(ds@) == Seq::new(
                        self.entries().len(),
                        |i: int| protocol_device(self.entries()[i].exported.device),
                    )
                    &&& forall|i: int|
                        0 <= i < self.entries().len() ==> busid_rejection(
                            (#[trigger] self.entries()[i]).exported.device.bus_id@,
                        ) is None
                },
                Err(ServerError::Protocol(ProtocolError::InvalidBusId(m))) => exists|i: int|
                    0 <= i < self.entries().len() && busid_rejection(
                        (#[trigger] self.entries()[i]).exported.device.bus_id@,
                    ) == Some(m@) && forall|j: int|
                        0 <= j < i ==> busid_rejection(
                            (#[trigger] self.entries()[j]).exported.device.bus_id@,
                        ) is None,
                Err(_) => false,
            },
    {
        let mut out: Vec<UsbDevice> = Vec::new();
        let mut i: usize = 0;
        while i < self.entries.len()
            invariant
                i <= self.entries@.len(),
                device_models(out@) =~= Seq::new(
                    i as nat,
                    |j: int| protocol_device(self.entries@[j].exported.device),
                ),
                forall|j: int|
                    0 <= j < i ==> busid_rejection(
                        (#[trigger] self.entries@[j]).exported.device.bus_id@,
                    ) is None,
            decreases self.entries.len() - i,
        {
            match self.entries[i].exported.device.to_protocol_device() {
                Ok(d) => {
                    let ghost before = device_models(out@);
                    out.push(d);
                    assert(device_models(out@) =~= before.push(d@));
                },
                Err(e) => {
                    return Err(e);
                },
            }
            i = i + 1;
        }
        Ok(out)
    }

    /// Take a device for the session of a client. One that is not on offer, is
    /// in use or cannot be described is refused, and nothing is changed.
    pub fn try_acquire(&mut self, bus_id: &str) -> (r: Result<
        (HandleId, UsbDevice, SessionId),
        ServerError,
    >)
        requires
            old(self).well_formed(),
        ensures
            final(self).well_formed(),
            match r {
                Ok((handle, device, session)) => {
                    &&& old(self).bound(bus_id@)
                    &&& old(self).exported(bus_id@).active_session is None
                    &&& handle == old(self).exported(bus_id@).handle
                    &&& converts_to(
                        old(self).exported(bus_id@).device,
                        Ok::<UsbDevice, ServerError>(device),
                    )
                    &&& session == old(self).next_session()
                    &&& old(self).with_session(*final(self), bus_id@, Some(session))
                    &&& final(self).next_session() == old(self).next_session().wrapping_add(1)
                },
                Err(ServerError::DeviceNotBound { bus_id: b }) => {
                    &&& !old(self).bound(bus_id@)
                    &&& b@ == bus_id@
                    &&& *final(self) == *old(self)
                },
                Err(ServerError::DeviceInUse { bus_id: b }) => {
                    &&& old(self).bound(bus_id@)
                    &&& old(self).exported(bus_id@).active_session is Some
                    &&& b@ == bus_id@
                    &&& *final(self) == *old(self)
                },
                Err(e) => {
                    &&& old(self).bound(bus_id@)
                    &&& old(self).exported(bus_id@).active_session is None
                    &&& converts_to(
                        old(self).exported(bus_id@).device,
                        Err::<UsbDevice, ServerError>(e),
                    )
                    &&& *final(self) == *old(self)
                },
            },
    {
        let i: usize = self.find(bus_id);
        if i >= self.entries.len() {
            return Err(ServerError::DeviceNotBound { bus_id: bus_id.to_owned() });
        }
        if self.entries[i].exported.active_session.is_some() {
            return Err(ServerError::DeviceInUse { bus_id: bus_id.to_owned() });
        }
        let described = match self.entries[i].exported.device.to_protocol_device() {
            Ok(d) => d,
            Err(e) => {
                return Err(e);
            },
        };
        let session: SessionId = self.next_session_id;
        self.next_session_id = self.next_session_id.wrapping_add(1);
        self.entries[i].exported.active_session = Some(session);
        let handle: HandleId = self.entries[i].exported.handle;
        proof {
            lemma_same_keys(old(self).entries@, self.entries@);
        }
        Ok((handle, described, session))
    }

    /// End a session. The device can then be taken again. A session that is
    /// not the device's changes nothing.
    pub fn release(&mut self, bus_id: &str, session_id: SessionId)
        requires
            old(self).well_formed(),
        ensures
            final(self).well_formed(),
            final(self).next_session() == old(self).next_session(),
            if old(self).bound(bus_id@) && old(self).exported(bus_id@).active_session == Some(
                session_id,
            ) {
                old(self).with_session(*final(self), bus_id@, None)
            } else {
                *final(self) == *old(self)
            },
    {
        let i: usize = self.find(bus_id);
        if i < self.entries.len() {
            if let Some(s) = self.entries[i].exported.active_session {
                if s == session_id {
                    self.entries[i].exported.active_session = None;
                    proof {
                        lemma_same_keys(old(self).entries@, self.entries@);
                    }
                }
            }
        }
    }
}

/// Where a device of this host with a bus ID first stands, or the length where
/// there is none.
pub open spec fn local_place(ds: Seq<LocalUsbDevice>, bus_id: Seq<char>) -> int
    decreases ds.len(),
{
    if ds.len() == 0 || ds[0].bus_id@ == bus_id {
        0
    } else {
        1 + local_place(ds.skip(1), bus_id)
    }
}

/// Where the first device of this host with a bus ID stands.
pub fn find_local(devices: &Vec<LocalUsbDevice>, bus_id: &str) -> (i: usize)
    ensures
        i == local_place(devices@, bus_id@),
        i <= devices@.len(),
        i < devices@.len() ==> devices@[i as int].bus_id@ == bus_id@,
{
    let key = bus_id.to_owned();
    let mut i: usize = 0;
    assert(devices@.skip(0) =~= devices@);
    while i < devices.len()
        invariant_except_break
            i <= devices@.len(),
            key@ == bus_id@,
            local_place(devices@, bus_id@) == i + local_place(devices@.skip(i as int), bus_id@),
        ensures
            i <= devices@.len(),
            i < devices@.len() ==> devices@[i as int].bus_id@ == bus_id@,
            local_place(devices@, bus_id@) == i,
        decreases devices.len() - i,
    {
        if devices[i].bus_id == key {
            break;
        }
        assert(devices@.skip(i as int).skip(1) =~= devices@.skip(i + 1));
        i = i + 1;
    }
    i
}

/// A device that has been taken is in the session it was taken for: it cannot
/// be taken again before that session ends.
pub proof fn law_taken_is_in_use(
    before: ExportRegistry,
    after: ExportRegistry,
    bus_id: Seq<char>,
    session: SessionId,
)
    requires
        before.bound(bus_id),
        before.with_session(after, bus_id, Some(session)),
    ensures
        after.bound(bus_id),
        after.exported(bus_id).active_session == Some(session),
        forall|k: Seq<char>| after.bound(k) == before.bound(k),
{
    lemma_with_session_keys(before, after, bus_id, Some(session));
}

/// Ending the session of a device that has been taken gives back the registry
/// as it was before, but for the session that comes next.
pub proof fn law_release_undoes_acquire(
    before: ExportRegistry,
    taken: ExportRegistry,
    after: ExportRegistry,
    bus_id: Seq<char>,
    session: SessionId,
)
    requires
        before.bound(bus_id),
        before.exported(bus_id).active_session is None,
        before.with_session(taken, bus_id, Some(session)),
        taken.with_session(after, bus_id, None),
    ensures
        after.entries() == before.entries(),
{
    lemma_with_session_keys(before, taken, bus_id, Some(session));
    let i = place_of(before.entries(), bus_id);
    assert(after.entries()[i] == before.entries()[i]);
    assert forall|j: int| 0 <= j < before.entries().len() implies after.entries()[j]
        == before.entries()[j] by {
        if j != i {
            assert(after.entries()[j] == taken.entries()[j]);
        }
    }
    assert(after.entries() =~= before.entries());
}

/// Unbinding a device that was just bound gives back the registry as it was.
pub proof fn law_unbind_undoes_bind(
    before: ExportRegistry,
    bound: ExportRegistry,
    after: ExportRegistry,
    bus_id: Seq<char>,
    device: LocalUsbDevice,
    handle: HandleId,
)
    requires
        !before.bound(bus_id),
        before.with_device(bound, bus_id, device, handle),
        bound.without_device(after, bus_id),
    ensures
        bound.bound(bus_id),
        bound.exported(bus_id).device == device,
        bound.exported(bus_id).active_session is None,
        after.entries() == before.entries(),
        after.next_session() == before.next_session(),
{
    let was = before.entries();
    let es = bound.entries();
    lemma_place_bounds(was, bus_id);
    lemma_absent(was, bus_id);
    assert forall|j: int| 0 <= j < was.len() implies (#[trigger] es[j]).bus_id@ != bus_id by {
        assert(es.drop_last()[j] == es[j]);
        assert(was[j].bus_id@ != bus_id);
    }
    lemma_place(es, bus_id, was.len() as int);
    assert(es.remove(was.len() as int) =~= was);
}

/// What binding, unbinding, taking and releasing a device can make of a
/// registry that has not run out of sessions.
pub open spec fn changed(before: ExportRegistry, after: ExportRegistry, bus_id: Seq<char>) -> bool {
    ||| after == before
    ||| exists|device: LocalUsbDevice, handle: HandleId|
        before.with_device(after, bus_id, device, handle)
    ||| before.bound(bus_id) && before.without_device(after, bus_id)
    ||| {
        &&& before.bound(bus_id)
        &&& before.with_session(after, bus_id, Some(before.next_session()))
        &&& after.next_session() == before.next_session() + 1
    }
    ||| {
        &&& before.bound(bus_id)
        &&& before.with_session(after, bus_id, None)
        &&& after.next_session() == before.next_session()
    }
}

/// No two clients ever have the same session, and none has one that is still to
/// come, whatever is done to a registry of which that holds.
pub proof fn law_sessions_differ(before: ExportRegistry, after: ExportRegistry, bus_id: Seq<char>)
    requires
        before.sessions_differ(),
        changed(before, after, bus_id),
    ensures
        after.sessions_differ(),
{
    let was = before.entries();
    let es = after.entries();
    let p = place_of(was, bus_id);
    lemma_place_bounds(was, bus_id);
    let bind = exists|device: LocalUsbDevice, handle: HandleId|
        before.with_device(after, bus_id, device, handle);
    let unbind = before.bound(bus_id) && before.without_device(after, bus_id);
    let from = |i: int|
        if unbind && i >= p {
            i + 1
        } else {
            i
        };
    // A device is as it was, or is the one whose session is new or has ended.
    assert forall|i: int| 0 <= i < es.len() implies {
        let now = (#[trigger] es[i]).exported.active_session;
        ||| 0 <= from(i) < was.len() && now == was[from(i)].exported.active_session
        ||| now is None
        ||| i == p && now == Some(before.next_session()) && after.next_session()
            == before.next_session() + 1
    } by {
        if after != before && bind && i < was.len() {
            assert(es.drop_last()[i] == es[i]);
        }
    }
    assert forall|i: int| 0 <= i < es.len() implies ((
    #[trigger] es[i]).exported.active_session matches Some(s) ==> s < after.next_session()) by {
        let k = from(i);
        if 0 <= k < was.len() {
            assert(was[k] == before.entries()[k]);
        }
    }
    assert forall|i: int, j: int|
        0 <= i < j < es.len() && (#[trigger] es[i]).exported.active_session is Some implies (
    #[trigger] es[j]).exported.active_session != es[i].exported.active_session by {
        let k = from(i);
        let l = from(j);
        if 0 <= k < was.len() {
            assert(was[k] == before.entries()[k]);
        }
        if 0 <= l < was.len() {
            assert(was[l] == before.entries()[l]);
        }
    }
}

/// The states of a registry that has not run out of sessions, each made of the
/// one before by what is done to the device of a bus ID.
pub open spec fn is_history(states: Seq<ExportRegistry>, bus_ids: Seq<Seq<char>>) -> bool {
    &&& states.len() == bus_ids.len() + 1
    &&& forall|i: int|
        0 <= i < bus_ids.len() ==> changed(states[i], states[i + 1], #[trigger] bus_ids[i])
}

/// Taking a device gives a session.
pub open spec fn gives_session(
    before: ExportRegistry,
    after: ExportRegistry,
    bus_id: Seq<char>,
    session: SessionId,
) -> bool {
    &&& before.bound(bus_id)
    &&& before.exported(bus_id).active_session is None
    &&& session == before.next_session()
    &&& before.with_session(after, bus_id, Some(session))
    &&& after.next_session() == before.next_session() + 1
}

/// The session that comes next never lies before one that came next earlier.
proof fn lemma_sessions_grow(
    states: Seq<ExportRegistry>,
    bus_ids: Seq<Seq<char>>,
    i: int,
    j: int,
)
    requires
        is_history(states, bus_ids),
        0 <= i <= j < states.len(),
    ensures
        states[i].next_session() <= states[j].next_session(),
    decreases j - i,
{
    if i < j {
        lemma_sessions_grow(states, bus_ids, i, j - 1);
        assert(changed(states[j - 1], states[j - 1 + 1], bus_ids[j - 1]));
    }
}

/// A session that a client is given is none that the registry ever gave before,
/// whatever was done in between: it is greater than all of them.
pub proof fn law_sessions_are_new(
    states: Seq<ExportRegistry>,
    bus_ids: Seq<Seq<char>>,
    i: int,
    j: int,
    earlier: SessionId,
    later: SessionId,
)
    requires
        is_history(states, bus_ids),
        0 <= i < j < bus_ids.len(),
        gives_session(states[i], states[i + 1], bus_ids[i], earlier),
        gives_session(states[j], states[j + 1], bus_ids[j], later),
    ensures
        earlier < later,
{
    lemma_sessions_grow(states, bus_ids, i + 1, j);
}

/// A device that has been put on offer is the one that the next client takes:
/// the client gets the handle it was opened under and is described the device,
/// in a session of its own.
pub proof fn law_offered_then_taken(
    a: &mut ExportRegistry,
    b: &mut ExportRegistry,
    bus_id: &str,
    device: LocalUsbDevice,
    handle: HandleId,
    bound: Result<(), ServerError>,
    described: Result<UsbDevice, ServerError>,
    taken: Result<(HandleId, UsbDevice, SessionId), ServerError>,
)
    requires
        call_ensures(ExportRegistry::bind_device_with, (a, bus_id, device, handle), bound),
        bound is Ok,
        *old(b) == *final(a),
        call_ensures(LocalUsbDevice::to_protocol_device, (&device,), described),
        call_ensures(ExportRegistry::try_acquire, (b, bus_id), taken),
    ensures
        described is Ok <==> taken is Ok,
        taken matches Ok(t) ==> t.0 == handle && described is Ok && t.1@ == described->Ok_0@ && t.2
            == old(a).next_session(),
{
    let was = old(a).entries();
    let es = final(a).entries();
    lemma_place_bounds(was, bus_id@);
    lemma_absent(was, bus_id@);
    assert forall|j: int| 0 <= j < was.len() implies (#[trigger] es[j]).bus_id@ != bus_id@ by {
        assert(es.drop_last()[j] == es[j]);
        assert(was[j].bus_id@ != bus_id@);
    }
    lemma_place(es, bus_id@, was.len() as int);
}

/// A device that a client has taken is refused to every other client, and stays
/// with the first.
pub proof fn law_second_client_refused(
    a: &mut ExportRegistry,
    b: &mut ExportRegistry,
    bus_id: &str,
    first: Result<(HandleId, UsbDevice, SessionId), ServerError>,
    second: Result<(HandleId, UsbDevice, SessionId), ServerError>,
)
    requires
        call_ensures(ExportRegistry::try_acquire, (a, bus_id), first),
        first is Ok,
        *old(b) == *final(a),
        call_ensures(ExportRegistry::try_acquire, (b, bus_id), second),
    ensures
        second matches Err(e) && (e matches ServerError::DeviceInUse { bus_id: id } && id@
            == bus_id@),
        final(b).exported(bus_id@).active_session == Some(first->Ok_0.2),
{
    law_taken_is_in_use(*old(a), *final(a), bus_id@, first->Ok_0.2);
}

/// The end of its session, and of no other, frees a device: the next client
/// then gets it under the same handle, in a later session.
pub proof fn law_released_then_taken(
    a: &mut ExportRegistry,
    b: &mut ExportRegistry,
    c: &mut ExportRegistry,
    bus_id: &str,
    ended: SessionId,
    first: Result<(HandleId, UsbDevice, SessionId), ServerError>,
    second: Result<(HandleId, UsbDevice, SessionId), ServerError>,
)
    requires
        call_ensures(ExportRegistry::try_acquire, (a, bus_id), first),
        first is Ok,
        old(a).next_session() < u64::MAX,
        *old(b) == *final(a),
        call_ensures(ExportRegistry::release, (b, bus_id, ended), ()),
        *old(c) == *final(b),
        call_ensures(ExportRegistry::try_acquire, (c, bus_id), second),
    ensures
        second is Ok <==> ended == first->Ok_0.2,
        second matches Ok(t) ==> t.0 == first->Ok_0.0 && t.2 == first->Ok_0.2 + 1,
{
    let session = first->Ok_0.2;
    law_taken_is_in_use(*old(a), *final(a), bus_id@, session);
    if ended == session {
        lemma_with_session_keys(*old(b), *final(b), bus_id@, None);
        law_release_undoes_acquire(*old(a), *final(a), *final(b), bus_id@, session);
        crate::protocol::device::law_busid_field(
            old(a).exported(bus_id@).device.bus_id@,
            0,
        );
    }
}

/// A bus ID is on offer once: it is refused while it is on offer, and no other
/// bus ID is put on offer or taken off with it.
pub proof fn law_offered_once(
    a: &mut ExportRegistry,
    b: &mut ExportRegistry,
    bus_id: &str,
    device: LocalUsbDevice,
    handle: HandleId,
    other: LocalUsbDevice,
    other_handle: HandleId,
    first: Result<(), ServerError>,
    second: Result<(), ServerError>,
)
    requires
        call_ensures(ExportRegistry::bind_device_with, (a, bus_id, device, handle), first),
        *old(b) == *final(a),
        call_ensures(ExportRegistry::bind_device_with, (b, bus_id, other, other_handle), second),
    ensures
        first is Ok <==> !old(a).bound(bus_id@),
        second matches Err(e) && (e matches ServerError::DeviceAlreadyBound { bus_id: id } && id@
            == bus_id@),
        final(b).bound(bus_id@),
        first is Ok ==> final(b).exported(bus_id@).handle == handle,
{
    if first is Ok {
        let was = old(a).entries();
        let es = final(a).entries();
        lemma_place_bounds(was, bus_id@);
        lemma_absent(was, bus_id@);
        assert forall|j: int| 0 <= j < was.len() implies (#[trigger] es[j]).bus_id@ != bus_id@ by {
            assert(es.drop_last()[j] == es[j]);
            assert(was[j].bus_id@ != bus_id@);
        }
        lemma_place(es, bus_id@, was.len() as int);
    }
}

/// A device taken off offer hands back the session of the client that has it,
/// and can then not be taken.
pub proof fn law_taken_off(
    a: &mut ExportRegistry,
    b: &mut ExportRegistry,
    bus_id: &str,
    off: Result<Option<SessionId>, ServerError>,
    taken: Result<(HandleId, UsbDevice, SessionId), ServerError>,
)
    requires
        call_ensures(ExportRegistry::unbind_device, (a, bus_id), off),
        *old(b) == *final(a),
        call_ensures(ExportRegistry::try_acquire, (b, bus_id), taken),
    ensures
        off is Ok <==> old(a).bound(bus_id@),
        off matches Ok(s) ==> s == old(a).exported(bus_id@).active_session,
        off matches Err(e) ==> e is DeviceNotBound,
        taken matches Err(e) && (e matches ServerError::DeviceNotBound { bus_id: id } && id@
            == bus_id@),
{
}

/// The devices on offer are listed in their order, each as the protocol
/// describes it.
pub proof fn law_listed_as_described(
    r: ExportRegistry,
    ds: Vec<UsbDevice>,
    i: int,
    described: Result<UsbDevice, ServerError>,
)
    requires
        call_ensures(ExportRegistry::list_devices, (&r,), Ok(ds)),
        0 <= i < ds@.len(),
        call_ensures(
            LocalUsbDevice::to_protocol_device,
            (&r.entries()[i].exported.device,),
            described,
        ),
    ensures
        ds@.len() == r.entries().len(),
        described matches Ok(d) && d@ == ds@[i]@,
{
    let m = device_models(ds@);
    assert(m.len() == ds@.len());
    assert(m[i] == ds@[i]@);
    assert(m[i] == protocol_device(r.entries()[i].exported.device));
    assert(busid_rejection(r.entries()[i].exported.device.bus_id@) is None);
}

/// A device of this host is put on offer under the bus ID that was asked for,
/// and is the one that has it.
pub proof fn law_local_offered(
    a: &mut ExportRegistry,
    bus_id: &str,
    local_devices: Vec<LocalUsbDevice>,
    opened: Result<HandleId, ServerError>,
    r: Result<(), ServerError>,
)
    requires
        call_ensures(ExportRegistry::bind_device, (a, bus_id, local_devices, opened), r),
    ensures
        r is Ok ==> {
            let last = final(a).entries().last();
            &&& opened == Ok::<HandleId, ServerError>(last.exported.handle)
            &&& last.bus_id@ == bus_id@
            &&& last.exported.device.bus_id@ == bus_id@
            &&& local_devices@.contains(last.exported.device)
            &&& last.exported.active_session is None
            &&& final(a).entries().len() == old(a).entries().len() + 1
        },
        r is Err ==> *final(a) == *old(a),
        r is Ok <==> !old(a).bound(bus_id@) && opened is Ok && exists|i: int|
            0 <= i < local_devices@.len() && (#[trigger] local_devices@[i]).bus_id@ == bus_id@,
{
    lemma_local_place(local_devices@, bus_id@);
}

proof fn lemma_local_place(ds: Seq<LocalUsbDevice>, bus_id: Seq<char>)
    ensures
        0 <= local_place(ds, bus_id) <= ds.len(),
        local_place(ds, bus_id) < ds.len() ==> ds[local_place(ds, bus_id)].bus_id@ == bus_id,
        local_place(ds, bus_id) < ds.len() <==> exists|i: int|
            0 <= i < ds.len() && (#[trigger] ds[i]).bus_id@ == bus_id,
    decreases ds.len(),
{
    if ds.len() > 0 {
        let rest = ds.skip(1);
        lemma_local_place(rest, bus_id);
        if ds[0].bus_id@ != bus_id {
            if exists|i: int| 0 <= i < ds.len() && (#[trigger] ds[i]).bus_id@ == bus_id {
                let i = choose|i: int| 0 <= i < ds.len() && (#[trigger] ds[i]).bus_id@ == bus_id;
                assert(rest[i - 1].bus_id@ == bus_id);
            }
        }
    }
}

/// A place is one of the registry, or its length.
proof fn lemma_place_bounds(es: Seq<Entry>, k: Seq<char>)
    ensures
        0 <= place_of(es, k) <= es.len(),
    decreases es.len(),
{
    if es.len() > 0 {
        lemma_place_bounds(es.skip(1), k);
    }
}

proof fn lemma_absent(es: Seq<Entry>, k: Seq<char>)
    requires
        place_of(es, k) == es.len(),
    ensures
        forall|j: int| 0 <= j < es.len() ==> (#[trigger] es[j]).bus_id@ != k,
    decreases es.len(),
{
    if es.len() > 0 {
        lemma_absent(es.skip(1), k);
        assert forall|j: int| 0 <= j < es.len() implies (#[trigger] es[j]).bus_id@ != k by {
            if j > 0 {
                assert(es.skip(1)[j - 1] == es[j]);
            }
        }
    }
}

proof fn lemma_with_session_keys(
    before: ExportRegistry,
    after: ExportRegistry,
    bus_id: Seq<char>,
    session: Option<SessionId>,
)
    requires
        before.bound(bus_id),
        before.with_session(after, bus_id, session),
    ensures
        forall|k: Seq<char>|
            place_of(before.entries(), k) == #[trigger] place_of(after.entries(), k),
{
    let a = before.entries();
    let b = after.entries();
    let p = place_of(a, bus_id);
    assert forall|i: int| 0 <= i < a.len() implies (#[trigger] b[i]).bus_id@ == a[i].bus_id@ by {
        if i != p {
            assert(after.entries()[i] == before.entries()[i]);
        }
    }
    lemma_same_keys(a, b);
}

/// Registries with the same bus IDs have them at the same places.
pub proof fn lemma_same_keys(a: Seq<Entry>, b: Seq<Entry>)
    requires
        a.len() == b.len(),
        forall|i: int| 0 <= i < a.len() ==> (#[trigger] b[i]).bus_id@ == a[i].bus_id@,
    ensures
        distinct(a) ==> distinct(b),
        forall|k: Seq<char>| place_of(a, k) == #[trigger] place_of(b, k),
{
    if distinct(a) {
        assert forall|i: int, j: int| 0 <= i < j < b.len() implies #[trigger] b[i].bus_id@
            != #[trigger] b[j].bus_id@ by {
            assert(a[i].bus_id@ != a[j].bus_id@);
        }
    }
    assert forall|k: Seq<char>| place_of(a, k) == #[trigger] place_of(b, k) by {
        lemma_same_place(a, b, k);
    }
}

proof fn lemma_same_place(a: Seq<Entry>, b: Seq<Entry>, k: Seq<char>)
    requires
        a.len() == b.len(),
        forall|i: int| 0 <= i < a.len() ==> (#[trigger] b[i]).bus_id@ == a[i].bus_id@,
    ensures
        place_of(a, k) == place_of(b, k),
    decreases a.len(),
{
    if a.len() > 0 {
        assert(b[0].bus_id@ == a[0].bus_id@);
        let x = a.skip(1);
        let y = b.skip(1);
        assert forall|i: int| 0 <= i < x.len() implies (#[trigger] y[i]).bus_id@
            == x[i].bus_id@ by {
            assert(b[i + 1].bus_id@ == a[i + 1].bus_id@);
        }
        lemma_same_place(x, y, k);
    }
}

impl Default for ExportRegistry {
    /// An empty registry.
    fn default() -> (r: Self)
        ensures
            r.well_formed(),
            r.entries() == Seq::<Entry>::empty(),
            r.next_session() == 1,
    {
        ExportRegistry::new()
    }
}

} // verus!
