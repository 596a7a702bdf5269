//! The captures that have been started, by name.
use vstd::prelude::*;
use vstd::string::*;

use crate::address::same_ip;
use crate::api::ApiError;
use crate::capture::{CaptureHandle, CaptureResult};

verus! {

/// A capture, its name and its device.
#[derive(Clone, Debug)]
pub struct CaptureSlot {
    pub id: String,
    /// The device that the capture runs on.
    pub ip: [u8; 4],
    pub handle: CaptureHandle,
}

/// All captures, in the order in which they were started. A name stands for the last capture that
/// was started under it.
#[derive(Clone, Debug)]
pub struct Captures {
    pub slots: Vec<CaptureSlot>,
}

/// The name `id` stands for the capture in slot `k`.
pub open spec fn stands_for(slots: Seq<CaptureSlot>, id: Seq<char>, k: int) -> bool {
    &&& 0 <= k < slots.len()
    &&& slots[k].id@ == id
    &&& forall|j: int| k < j < slots.len() ==> (#[trigger] slots[j]).id@ != id
}

/// No capture has the name `id`.
pub open spec fn unknown(slots: Seq<CaptureSlot>, id: Seq<char>) -> bool {
    forall|j: int| 0 <= j < slots.len() ==> (#[trigger] slots[j]).id@ != id
}

/// Slot `k` can be reached by its name.
pub open spec fn reachable(slots: Seq<CaptureSlot>, k: int) -> bool {
    stands_for(slots, slots[k].id@, k)
}

pub open spec fn no_capture_text(id: Seq<char>) -> Seq<char> {
    "no capture "@ + id
}

/// `slot` after a wish that the capture end, unless it is done.
pub open spec fn asked_to_end(slot: CaptureSlot) -> CaptureSlot {
    if slot.handle.done {
        slot
    } else {
        CaptureSlot { handle: CaptureHandle { abort: true, ..slot.handle }, ..slot }
    }
}

/// `slot` once a capture starts on the device at `ip`: a capture on that device is asked to end, one
/// on another device is left alone.
pub open spec fn making_way(slot: CaptureSlot, ip: [u8; 4]) -> CaptureSlot {
    if slot.ip@ == ip@ {
        asked_to_end(slot)
    } else {
        slot
    }
}

/// What is told of a capture in a list.
#[derive(Clone, Debug)]
pub struct CaptureListing {
    pub capture_id: String,
    pub done: bool,
    pub aborted: bool,
    pub phase: String,
}

impl CaptureListing {
    /// This tells of the capture in `slot`.
    pub open spec fn tells_of(&self, slot: CaptureSlot) -> bool {
        &&& self.capture_id == slot.id
        &&& self.done == slot.handle.done
        &&& self.aborted == slot.handle.abort
        &&& self.phase == slot.handle.phase
    }
}

/// The slots below `n` that can be reached by their names, in order.
pub open spec fn reachable_below(slots: Seq<CaptureSlot>, n: int) -> Seq<int>
    decreases n,
{
    if n <= 0 {
        Seq::empty()
    } else if reachable(slots, n - 1) {
        reachable_below(slots, n - 1).push(n - 1)
    } else {
        reachable_below(slots, n - 1)
    }
}

/// What is answered when the result of a capture is asked for.
#[derive(Debug)]
pub enum CaptureStatus<'a> {
    /// The capture is not done.
    Running,
    Finished(&'a CaptureResult),
    Failed(&'a String),
    /// The capture is done and has left no result.
    Empty,
}

/// The answer for the capture `h`.
pub open spec fn status_of<'a>(h: &'a CaptureHandle) -> CaptureStatus<'a> {
    if !h.done {
        CaptureStatus::Running
    } else {
        match h.result {
            Some(Ok(r)) => CaptureStatus::Finished(&r),
            Some(Err(e)) => CaptureStatus::Failed(&e),
            None => CaptureStatus::Empty,
        }
    }
}

impl Captures {
    /// On each device only the last capture may be running: the ones before it are done or have
    /// been asked to end.
    pub open spec fn wf(&self) -> bool {
        forall|j: int, k: int|
            #![trigger self.slots@[j], self.slots@[k]]
            0 <= j < k < self.slots@.len() && self.slots@[j].ip@ == self.slots@[k].ip@
                ==> self.slots@[j].handle.done || self.slots@[j].handle.abort
    }

    /// No captures.
    pub fn new() -> (c: Self)
        ensures
            c.slots@.len() == 0,
            c.wf(),
    {
        let slots: Vec<CaptureSlot> = Vec::new();
        Captures { slots }
    }

    /// Adds a capture on the device at `ip` under the name `id` and returns its slot. Captures on that
    /// device that are not done are asked to end first; those on other devices are left alone.
    pub fn start(&mut self, id: String, ip: [u8; 4], frames_per_port: usize) -> (slot: usize)
        ensures
            slot == old(self).slots@.len(),
            final(self).slots@.len() == slot + 1,
            forall|k: int|
                0 <= k < slot ==> #[trigger] final(self).slots@[k] == making_way(
                    old(self).slots@[k],
                    ip,
                ),
            final(self).slots@[slot as int].id == id,
            final(self).slots@[slot as int].ip == ip,
            stands_for(final(self).slots@, id@, slot as int),
            ({
                let h = final(self).slots@[slot as int].handle;
                &&& !h.abort
                &&& h.phase@ == "queued"@
                &&& h.progress@ == crate::capture::no_progress(frames_per_port)
                &&& !h.done
                &&& h.result is None
            }),
            old(self).wf() ==> final(self).wf(),
    {
        let ghost before = self.slots@;
        let n: usize = self.slots.len();
        let mut k: usize = 0;
        while k < n
            invariant
                n == before.len(),
                k <= n,
                self.slots@.len() == n,
                forall|j: int| 0 <= j < k ==> #[trigger] self.slots@[j] == making_way(
                    before[j],
                    ip,
                ),
                forall|j: int| k <= j < n ==> #[trigger] self.slots@[j] == before[j],
            decreases n - k,
        {
            if same_ip(&self.slots[k].ip, &ip) && !self.slots[k].handle.done {
                self.slots[k].handle.abort = true;
            }
            k = k + 1;
        }
        self.slots.push(CaptureSlot { id, ip, handle: CaptureHandle::new(frames_per_port) });
        n
    }

    /// The slot that the name `id` stands for.
    pub fn find(&self, id: &String) -> (r: Option<usize>)
        ensures
            match r {
                Some(k) => stands_for(self.slots@, id@, k as int),
                None => unknown(self.slots@, id@),
            },
    {
        let mut k: usize = self.slots.len();
        while k > 0
            invariant
                k <= self.slots@.len(),
                forall|j: int| k <= j < self.slots@.len() ==> (#[trigger] self.slots@[j]).id@ != id@,
            decreases k,
        {
            k = k - 1;
            if self.slots[k].id == *id {
                return Some(k);
            }
        }
        None
    }

    /// The capture in a slot.
    pub fn handle(&self, slot: usize) -> (h: &CaptureHandle)
        requires
            slot < self.slots@.len(),
        ensures
            *h == self.slots@[slot as int].handle,
    {
        &self.slots[slot].handle
    }

    /// The capture in a slot, to be changed.
    pub fn handle_mut(&mut self, slot: usize) -> (h: &mut CaptureHandle)
        requires
            slot < old(self).slots@.len(),
        ensures
            *h == old(self).slots@[slot as int].handle,
            final(self).slots@ == old(self).slots@.update(
                slot as int,
                CaptureSlot { handle: *final(h), ..old(self).slots@[slot as int] },
            ),
    {
        &mut self.slots[slot].handle
    }

    /// Asks the capture that `id` stands for to end. Returns its slot.
    pub fn cancel(&mut self, id: &String) -> (r: Result<usize, ApiError>)
        ensures
            match r {
                Ok(k) => {
                    &&& stands_for(old(self).slots@, id@, k as int)
                    &&& final(self).slots@ == old(self).slots@.update(
                        k as int,
                        CaptureSlot {
                            handle: CaptureHandle {
                                abort: true,
                                ..old(self).slots@[k as int].handle
                            },
                            ..old(self).slots@[k as int]
                        },
                    )
                },
                Err(e) => {
                    &&& unknown(old(self).slots@, id@)
                    &&& e.is_bad(no_capture_text(id@))
                    &&& *final(self) == *old(self)
                },
            },
            old(self).wf() ==> final(self).wf(),
    {
        match self.find(id) {
            Some(k) => {
                self.slots[k].handle.abort = true;
                Ok(k)
            },
            None => {
                let mut msg = "no capture ".to_string();
                msg.append(id.as_str());
                Err(ApiError::bad(msg))
            },
        }
    }

    /// The answer to a request for the result of the capture that `id` stands for.
    pub fn result(&self, id: &String) -> (r: Result<CaptureStatus<'_>, ApiError>)
        ensures
            match r {
                Ok(s) => exists|k: int|
                    #[trigger] stands_for(self.slots@, id@, k) && s == status_of(
                        &self.slots@[k].handle,
                    ),
                Err(e) => unknown(self.slots@, id@) && e.is_bad(no_capture_text(id@)),
            },
    {
        match self.find(id) {
            Some(k) => {
                assert(stands_for(self.slots@, id@, k as int));
                let h = &self.slots[k].handle;
                if !h.done {
                    return Ok(CaptureStatus::Running);
                }
                match &h.result {
                    Some(Ok(r)) => Ok(CaptureStatus::Finished(r)),
                    Some(Err(e)) => Ok(CaptureStatus::Failed(e)),
                    None => Ok(CaptureStatus::Empty),
                }
            },
            None => {
                let mut msg = "no capture ".to_string();
                msg.append(id.as_str());
                Err(ApiError::bad(msg))
            },
        }
    }

    /// All captures that can be reached by their names, in the order in which they were started.
    pub fn list(&self) -> (l: Vec<CaptureListing>)
        ensures
            ({
                let ks = reachable_below(self.slots@, self.slots@.len() as int);
                &&& l@.len() == ks.len()
                &&& forall|i: int|
                    0 <= i < l@.len() ==> (#[trigger] l@[i]).tells_of(self.slots@[ks[i]])
            }),
    {
        let mut l: Vec<CaptureListing> = Vec::new();
        let mut k: usize = 0;
        while k < self.slots.len()
            invariant
                k <= self.slots@.len(),
                l@.len() == reachable_below(self.slots@, k as int).len(),
                forall|i: int|
                    0 <= i < l@.len() ==> (#[trigger] l@[i]).tells_of(
                        self.slots@[reachable_below(self.slots@, k as int)[i]],
                    ),
            decreases self.slots@.len() - k,
        {
            let s = &self.slots[k];
            let current = match self.find(&s.id) {
                Some(j) => j == k,
                None => false,
            };
            proof {
                if current {
                    assert(reachable(self.slots@, k as int));
                } else {
                    assert(!reachable(self.slots@, k as int));
                }
            }
            if current {
                l.push(
                    CaptureListing {
                        capture_id: s.id.clone(),
                        done: s.handle.done,
                        aborted: s.handle.abort,
                        phase: s.handle.phase.clone(),
                    },
                );
            }
            k = k + 1;
        }
        l
    }
}

/// A name stands for one capture at most.
pub proof fn law_a_name_stands_for_one_capture(slots: Seq<CaptureSlot>, id: Seq<char>, i: int, j: int)
    requires
        stands_for(slots, id, i),
        stands_for(slots, id, j),
    ensures
        i == j,
{
    if i < j {
        assert(slots[j].id@ != id);
    } else if j < i {
        assert(slots[i].id@ != id);
    }
}

/// Starting a capture leaves at most that one running on its device, and touches no capture on
/// another device. What the other names stand for does not change.
pub proof fn law_starting_a_capture_ends_those_on_its_device(
    before: Seq<CaptureSlot>,
    after: Seq<CaptureSlot>,
    ip: [u8; 4],
    other: Seq<char>,
    k: int,
)
    requires
        after.len() == before.len() + 1,
        forall|j: int| 0 <= j < before.len() ==> #[trigger] after[j] == making_way(before[j], ip),
        0 <= k < before.len(),
        other != after.last().id@,
    ensures
        before[k].ip@ == ip@ ==> after[k].handle.done || after[k].handle.abort,
        before[k].ip@ != ip@ || before[k].handle.done ==> after[k] == before[k],
        stands_for(after, other, k) <==> stands_for(before, other, k),
{
    assert(after[k] == making_way(before[k], ip));
    if stands_for(before, other, k) {
        assert forall|j: int| k < j < after.len() implies (#[trigger] after[j]).id@ != other by {
            if j < before.len() {
                assert(after[j] == making_way(before[j], ip));
                assert(before[j].id@ != other);
            }
        }
    }
    if stands_for(after, other, k) {
        assert forall|j: int| k < j < before.len() implies (#[trigger] before[j]).id@ != other by {
            assert(after[j] == making_way(before[j], ip));
        }
    }
}

/// Whatever a capture goes through, there is at most one running on each device, as long as being
/// done and being asked to end are not taken back.
pub proof fn law_changing_a_capture_keeps_one_for_each_device(
    before: Captures,
    after: Captures,
    slot: int,
    handle: CaptureHandle,
)
    requires
        before.wf(),
        0 <= slot < before.slots@.len(),
        after.slots@ == before.slots@.update(
            slot,
            CaptureSlot { handle, ..before.slots@[slot] },
        ),
        before.slots@[slot].handle.abort ==> handle.abort,
        before.slots@[slot].handle.done ==> handle.done,
    ensures
        after.wf(),
{
    assert forall|j: int, k: int|
        #![trigger after.slots@[j], after.slots@[k]]
        0 <= j < k < after.slots@.len() && after.slots@[j].ip@
            == after.slots@[k].ip@ implies after.slots@[j].handle.done
        || after.slots@[j].handle.abort by {
        assert(before.slots@[j].ip == after.slots@[j].ip);
        assert(before.slots@[k].ip == after.slots@[k].ip);
    }
}

/// Asking a capture to end changes nothing but that wish, and not even that where it is done.
pub proof fn law_asking_to_end_changes_nothing_else(slot: CaptureSlot)
    ensures
        slot.handle.done ==> asked_to_end(slot) == slot,
        !slot.handle.done ==> asked_to_end(slot).handle.abort,
        asked_to_end(slot).id == slot.id,
        asked_to_end(slot).ip == slot.ip,
        asked_to_end(slot).handle.phase == slot.handle.phase,
        asked_to_end(slot).handle.progress == slot.handle.progress,
        asked_to_end(slot).handle.done == slot.handle.done,
        asked_to_end(slot).handle.result == slot.handle.result,
{
}

/// A name stands for the capture that was started last under it, and for none where there is no such
/// capture.
pub proof fn law_a_name_stands_for_the_last_of_its_captures(
    slots: Seq<CaptureSlot>,
    id: Seq<char>,
    k: int,
    j: int,
)
    ensures
        stands_for(slots, id, k) ==> 0 <= k < slots.len() && slots[k].id@ == id,
        stands_for(slots, id, k) && 0 <= j < slots.len() && slots[j].id@ == id ==> j <= k,
        unknown(slots, id) && 0 <= j < slots.len() ==> slots[j].id@ != id,
        unknown(slots, id) ==> !stands_for(slots, id, k),
{
}

/// A listing tells of its own capture: its name, whether it is done, whether it was asked to end, and its
/// phase.
pub proof fn law_a_listing_tells_of_its_own_capture(l: CaptureListing, slot: CaptureSlot)
    requires
        l.tells_of(slot),
    ensures
        l.capture_id == slot.id,
        l.done == slot.handle.done,
        l.aborted == slot.handle.abort,
        l.phase == slot.handle.phase,
{
}

/// The list holds every capture that is the last one under its name, once and in the order of their
/// start, and no other.
pub proof fn law_each_name_is_listed_once(slots: Seq<CaptureSlot>, n: int, k: int)
    requires
        0 <= n <= slots.len(),
    ensures
        forall|i: int, j: int|
            0 <= i < j < reachable_below(slots, n).len() ==> (#[trigger] reachable_below(slots, n)[i])
                < (#[trigger] reachable_below(slots, n)[j]),
        reachable_below(slots, n).contains(k) <==> 0 <= k < n && (forall|j: int|
            k < j < slots.len() ==> (#[trigger] slots[j]).id@ != slots[k].id@),
    decreases n,
{
    if n > 0 {
        law_each_name_is_listed_once(slots, n - 1, k);
        let before = reachable_below(slots, n - 1);
        assert forall|i: int| 0 <= i < before.len() implies #[trigger] before[i] < n - 1 by {
            law_each_name_is_listed_once(slots, n - 1, before[i]);
            assert(before.contains(before[i]));
        }
        if reachable(slots, n - 1) {
            let after = before.push(n - 1);
            if before.contains(k) {
                let i = choose|i: int| 0 <= i < before.len() && before[i] == k;
                assert(after[i] == k);
            }
            if k == n - 1 {
                assert(after[before.len() as int] == k);
            }
            if after.contains(k) && k != n - 1 {
                let i = choose|i: int| 0 <= i < after.len() && after[i] == k;
                assert(before[i] == k);
            }
        }
    }
}

/// A result is only handed out once the capture is done: then the result itself, the failure itself, or
/// neither where there is none.
pub proof fn law_results_wait_for_the_end(h: CaptureHandle)
    ensures
        !h.done <==> status_of(&h) is Running,
        h.done && h.result is None ==> status_of(&h) is Empty,
        h.done && h.result is Some && h.result->0 is Ok ==> status_of(&h)
            == CaptureStatus::Finished(&h.result->0->Ok_0),
        h.done && h.result is Some && h.result->0 is Err ==> status_of(&h)
            == CaptureStatus::Failed(&h.result->0->Err_0),
{
}

/// A capture that makes way for another on its device keeps everything but the wish that it end: its
/// name, its device, its phase, its progress and its result.
pub proof fn law_making_way_changes_nothing_else(slot: CaptureSlot, ip: [u8; 4])
    ensures
        slot.ip@ != ip@ || slot.handle.done ==> making_way(slot, ip) == slot,
        slot.ip@ == ip@ && !slot.handle.done ==> making_way(slot, ip) == (CaptureSlot {
            id: slot.id,
            ip: slot.ip,
            handle: CaptureHandle {
                abort: true,
                phase: slot.handle.phase,
                progress: slot.handle.progress,
                done: slot.handle.done,
                result: slot.handle.result,
            },
        }),
{
}

/// The complaint about an unknown capture names it.
pub proof fn law_an_unknown_capture_is_named(id: Seq<char>)
    ensures
        no_capture_text(id).len() == 11 + id.len(),
        no_capture_text(id).take(11) == "no capture "@,
        no_capture_text(id).skip(11) == id,
{
    reveal_strlit("no capture ");
    assert(no_capture_text(id).take(11) =~= "no capture "@);
    assert(no_capture_text(id).skip(11) =~= id);
}

} // verus!
