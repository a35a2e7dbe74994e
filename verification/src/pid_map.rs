//! Routing of transport packets to per-PID targets.
use vstd::prelude::*;
use crate::ts_packet::TsPacket;

verus! {

/// The largest PID.
pub const PID_MAX: u16 = 0x1FFF;

/// Number of entries of the PID table.
const PID_TABLE_SIZE: usize = 8192;

/// A receiver of the packets of the PIDs it is mapped to.
pub trait PIDMapTarget {
    /// Receives one packet; returns whether it was taken.
    fn store_packet(&mut self, packet: &TsPacket) -> bool;

    /// Called when the target is mapped to `pid`.
    fn on_pid_mapped(&mut self, pid: u16) {
    }

    /// Called when the target is unmapped from `pid`.
    fn on_pid_unmapped(&mut self, pid: u16) {
    }
}

/// The number of `true` entries among the first `n` of `s`.
pub open spec fn count_true(s: Seq<bool>, n: nat) -> nat
    decreases n,
{
    if n == 0 {
        0
    } else {
        count_true(s, (n - 1) as nat) + if s[n - 1] { 1nat } else { 0nat }
    }
}

proof fn lemma_count_bound(s: Seq<bool>, n: nat)
    ensures
        count_true(s, n) <= n,
    decreases n,
{
    if n > 0 {
        lemma_count_bound(s, (n - 1) as nat);
    }
}

proof fn lemma_count_update(s: Seq<bool>, n: nat, i: int, b: bool)
    requires
        0 <= i < s.len(),
        n <= s.len(),
    ensures
        count_true(s.update(i, b), n) + (if i < n && s[i] { 1int } else { 0int })
            == count_true(s, n) + (if i < n && b { 1int } else { 0int }),
    decreases n,
{
    if n > 0 {
        lemma_count_update(s, (n - 1) as nat, i, b);
    }
}

proof fn lemma_count_none(n: nat)
    requires
        n <= 8192,
    ensures
        count_true(Seq::new(8192, |k: int| false), n) == 0,
    decreases n,
{
    if n > 0 {
        lemma_count_none((n - 1) as nat);
    }
}

/// The unmapping notices, in PID order, for every PID below `n` that
/// `mapped` marks.
pub open spec fn unmap_notices(mapped: Seq<bool>, n: nat) -> Seq<(u16, bool)>
    decreases n,
{
    if n == 0 {
        Seq::empty()
    } else {
        let before = unmap_notices(mapped, (n - 1) as nat);
        if mapped[n - 1] { before.push(((n - 1) as u16, false)) } else { before }
    }
}

/// A well-formed manager has one entry per PID, `PID_MAX + 1` of them, and
/// its count is the number of mapped PIDs.
pub proof fn lemma_pid_table(m: &PIDMapManager)
    requires
        m.wf(),
    ensures
        m.mapped().len() == PID_MAX + 1,
        m.count() == count_true(m.mapped(), (PID_MAX + 1) as nat),
{
}

/// Routes packets to the targets mapped to their PIDs.
pub struct PIDMapManager {
    pid_map: Vec<Option<Box<dyn PIDMapTarget + 'static>>>,
    map_count: u16,
    notices: Ghost<Seq<(u16, bool)>>,
}

impl PIDMapManager {
    /// Which PIDs have a target.
    pub closed spec fn mapped(&self) -> Seq<bool> {
        Seq::new(self.pid_map@.len(), |k: int| self.pid_map@[k] is Some)
    }

    /// The number of mapped PIDs, as kept.
    pub closed spec fn count(&self) -> u16 {
        self.map_count
    }

    /// The notices sent to targets, in order: `(pid, true)` when a target was
    /// told it is mapped to `pid`, `(pid, false)` when told it is unmapped.
    pub closed spec fn notices(&self) -> Seq<(u16, bool)> {
        self.notices@
    }

    /// The table covers every PID and the count is that of the mapped PIDs.
    pub closed spec fn wf(&self) -> bool {
        &&& self.pid_map@.len() == PID_TABLE_SIZE
        &&& self.map_count == count_true(self.mapped(), PID_TABLE_SIZE as nat)
    }

    /// A manager with no PID mapped.
    pub fn new() -> (r: Self)
        ensures
            r.wf(),
            r.mapped() == Seq::new(8192, |k: int| false),
            r.count() == 0,
            r.notices() == Seq::<(u16, bool)>::empty(),
    {
        let mut v: Vec<Option<Box<dyn PIDMapTarget + 'static>>> = Vec::new();
        let mut i: usize = 0;
        while i < PID_TABLE_SIZE
            invariant
                i <= PID_TABLE_SIZE,
                v@.len() == i,
                forall|k: int| 0 <= k < i ==> #[trigger] v@[k] is None,
            decreases PID_TABLE_SIZE - i,
        {
            v.push(None);
            i = i + 1;
        }
        let r = PIDMapManager { pid_map: v, map_count: 0, notices: Ghost(Seq::empty()) };
        proof {
            assert(r.mapped() =~= Seq::new(8192, |k: int| false));
            lemma_count_none(8192);
        }
        r
    }

    /// Hands `packet` to the target of its PID; `false` when there is none.
    pub fn store_packet(&mut self, packet: &TsPacket) -> (r: bool)
        requires
            old(self).wf(),
        ensures
            final(self).wf(),
            final(self).mapped() == old(self).mapped(),
            final(self).count() == old(self).count(),
            final(self).notices() == old(self).notices(),
            !old(self).mapped()[packet.header().pid as int] ==> !r,
    {
        let pid = packet.get_pid();
        if pid > PID_MAX {
            return false;
        }
        let ghost before = self.mapped();
        let r = match self.pid_map[pid as usize].as_mut() {
            Some(target) => target.store_packet(packet),
            None => false,
        };
        assert(self.mapped() =~= before);
        r
    }

    /// Maps `target` to `pid`, unmapping the target it had. Refused for PIDs above `PID_MAX`.
    pub fn map_target(&mut self, pid: u16, target: Box<dyn PIDMapTarget + 'static>) -> (r: bool)
        requires
            old(self).wf(),
        ensures
            final(self).wf(),
            r == (pid <= PID_MAX),
            final(self).mapped() == (if r { old(self).mapped().update(pid as int, true) } else { old(self).mapped() }),
            final(self).count() == (if r && !old(self).mapped()[pid as int] { old(self).count() + 1 } else { old(self).count() as int }),
            final(self).notices() == (if !r {
                old(self).notices()
            } else if old(self).mapped()[pid as int] {
                old(self).notices().push((pid, false)).push((pid, true))
            } else {
                old(self).notices().push((pid, true))
            }),
    {
        if pid > PID_MAX {
            return false;
        }
        let mut target = target;
        self.unmap_target(pid);
        target.on_pid_mapped(pid);
        proof {
            self.notices@ = self.notices@.push((pid, true));
        }
        let ghost before = self.mapped();
        proof {
            lemma_count_update(before, 8192, pid as int, true);
            lemma_count_bound(before.update(pid as int, true), 8192);
        }
        let mut slot = Some(target);
        self.pid_map.set_and_swap(pid as usize, &mut slot);
        assert(self.mapped() =~= before.update(pid as int, true));
        self.map_count = self.map_count + 1;
        true
    }

    /// Unmaps the target of `pid`; returns whether there was one.
    pub fn unmap_target(&mut self, pid: u16) -> (r: bool)
        requires
            old(self).wf(),
        ensures
            final(self).wf(),
            r == (pid <= PID_MAX && old(self).mapped()[pid as int]),
            final(self).mapped() == (if pid <= PID_MAX { old(self).mapped().update(pid as int, false) } else { old(self).mapped() }),
            final(self).count() == (if r { old(self).count() - 1 } else { old(self).count() as int }),
            final(self).notices() == (if r { old(self).notices().push((pid, false)) } else { old(self).notices() }),
    {
        if pid > PID_MAX {
            return false;
        }
        let ghost before = self.mapped();
        let mut taken = None;
        self.pid_map.set_and_swap(pid as usize, &mut taken);
        proof {
            lemma_count_update(before, 8192, pid as int, false);
        }
        match taken {
            Some(mut target) => {
                target.on_pid_unmapped(pid);
                proof {
                    self.notices@ = self.notices@.push((pid, false));
                }
                assert(self.mapped() =~= before.update(pid as int, false));
                self.map_count = self.map_count - 1;
                true
            },
            None => {
                assert(self.mapped() =~= before.update(pid as int, false));
                false
            },
        }
    }

    /// Unmaps every target.
    pub fn unmap_all_targets(&mut self)
        requires
            old(self).wf(),
        ensures
            final(self).wf(),
            final(self).mapped() == Seq::new(8192, |k: int| false),
            final(self).count() == 0,
            final(self).notices() == old(self).notices() + unmap_notices(old(self).mapped(), 8192),
    {
        let mut pid: usize = 0;
        while pid < PID_TABLE_SIZE
            invariant
                pid <= PID_TABLE_SIZE,
                self.wf(),
                old(self).wf(),
                forall|k: int| 0 <= k < pid ==> !#[trigger] self.mapped()[k],
                forall|k: int| pid <= k < PID_TABLE_SIZE ==> #[trigger] self.mapped()[k] == old(self).mapped()[k],
                self.notices() == old(self).notices() + unmap_notices(old(self).mapped(), pid as nat),
            decreases PID_TABLE_SIZE - pid,
        {
            let ghost before = self.mapped();
            let mut taken = None;
            self.pid_map.set_and_swap(pid, &mut taken);
            proof {
                lemma_count_update(before, 8192, pid as int, false);
            }
            match taken {
                Some(mut target) => {
                    target.on_pid_unmapped(pid as u16);
                    proof {
                        self.notices@ = self.notices@.push((pid as u16, false));
                    }
                    assert(self.mapped() =~= before.update(pid as int, false));
                    self.map_count = self.map_count - 1;
                },
                None => {
                    assert(self.mapped() =~= before.update(pid as int, false));
                },
            }
            pid = pid + 1;
        }
        assert(self.mapped() =~= Seq::new(8192, |k: int| false));
        proof {
            lemma_count_none(8192);
        }
    }

    /// The target of `pid`, if one is mapped.
    pub fn get_map_target(&self, pid: u16) -> (r: Option<&(dyn PIDMapTarget + 'static)>)
        requires
            self.wf(),
        ensures
            r is Some == (pid <= PID_MAX && self.mapped()[pid as int]),
    {
        if pid > PID_MAX {
            return None;
        }
        match &self.pid_map[pid as usize] {
            Some(b) => Some(&**b),
            None => None,
        }
    }

    /// The target of `pid` for changing it, if one is mapped.
    pub fn get_map_target_mut(&mut self, pid: u16) -> (r: Option<&mut Box<dyn PIDMapTarget + 'static>>)
        requires
            old(self).wf(),
        ensures
            r is Some == (pid <= PID_MAX && old(self).mapped()[pid as int]),
    {
        if pid > PID_MAX {
            return None;
        }
        self.pid_map[pid as usize].as_mut()
    }

    /// The number of mapped PIDs.
    pub fn get_map_count(&self) -> (r: u16)
        requires
            self.wf(),
        ensures
            r == count_true(self.mapped(), 8192),
    {
        self.map_count
    }
}

impl Default for PIDMapManager {
    fn default() -> (r: Self)
        ensures
            r.wf(),
            r.mapped() == Seq::new(8192, |k: int| false),
            r.count() == 0,
    {
        Self::new()
    }
}

} // verus!
