//! Mount points of cells, mounted and unmounted atomically.
use vstd::prelude::*;
use crate::text::{owned, push_str, push_repeat, push_decimal, decimal, repeat, str_eq};
use crate::errors::{CellError, CellResult};

verus! {

/// The state of a mount point.
#[derive(Debug, Clone, Copy, PartialEq, Eq, Structural)]
pub enum MountStatus {
    Mounted,
    Unmounted,
    Error,
}

/// A mount point: an identifier, the path it mounts and its state.
#[derive(Debug, Clone)]
pub struct MountPoint {
    pub id: String,
    pub path: String,
    pub status: MountStatus,
}

impl MountPoint {
    /// A mount point not yet mounted.
    pub fn new(id: &str, path: &str) -> (r: Self)
        ensures
            r.id@ == id@,
            r.path@ == path@,
            r.status == MountStatus::Unmounted,
    {
        MountPoint { id: owned(id), path: owned(path), status: MountStatus::Unmounted }
    }

    pub fn is_mounted(&self) -> (r: bool)
        ensures
            r == (self.status == MountStatus::Mounted),
    {
        self.status == MountStatus::Mounted
    }
}

/// A mount point as (identifier, path, state).
pub open spec fn point_view(p: MountPoint) -> (Seq<char>, Seq<char>, MountStatus) {
    (p.id@, p.path@, p.status)
}

pub open spec fn point_views(ps: Seq<MountPoint>) -> Seq<(Seq<char>, Seq<char>, MountStatus)> {
    ps.map_values(|p: MountPoint| point_view(p))
}

/// The mount points by identifier: (path, state).
pub open spec fn mounts_map(ps: Seq<(Seq<char>, Seq<char>, MountStatus)>) -> Map<Seq<char>, (Seq<char>, MountStatus)>
    decreases ps.len(),
{
    if ps.len() == 0 {
        Map::empty()
    } else {
        mounts_map(ps.drop_last()).insert(ps.last().0, (ps.last().1, ps.last().2))
    }
}

/// No identifier occurs twice.
pub open spec fn unique_ids(ps: Seq<(Seq<char>, Seq<char>, MountStatus)>) -> bool {
    forall|i: int, j: int| 0 <= i < ps.len() && 0 <= j < ps.len() && i != j ==> ps[i].0 != ps[j].0
}

pub proof fn lemma_mounts_map_dom(ps: Seq<(Seq<char>, Seq<char>, MountStatus)>, k: Seq<char>)
    ensures
        mounts_map(ps).contains_key(k) <==> exists|i: int| 0 <= i < ps.len() && ps[i].0 == k,
    decreases ps.len(),
{
    if ps.len() > 0 {
        lemma_mounts_map_dom(ps.drop_last(), k);
        if mounts_map(ps).contains_key(k) && ps.last().0 != k {
            let i = choose|i: int| 0 <= i < ps.drop_last().len() && ps.drop_last()[i].0 == k;
            assert(ps[i].0 == k);
        }
        if exists|i: int| 0 <= i < ps.len() && ps[i].0 == k {
            let i = choose|i: int| 0 <= i < ps.len() && ps[i].0 == k;
            if i < ps.len() - 1 {
                assert(ps.drop_last()[i].0 == k);
            }
        }
    }
}

pub proof fn lemma_mounts_map_update(ps: Seq<(Seq<char>, Seq<char>, MountStatus)>, i: int,
    x: (Seq<char>, Seq<char>, MountStatus))
    requires
        unique_ids(ps),
        0 <= i < ps.len(),
        x.0 == ps[i].0,
    ensures
        mounts_map(ps.update(i, x)) == mounts_map(ps).insert(x.0, (x.1, x.2)),
        unique_ids(ps.update(i, x)),
    decreases ps.len(),
{
    let q = ps.update(i, x);
    if i == ps.len() - 1 {
        assert(q.drop_last() =~= ps.drop_last());
        assert(mounts_map(q) =~= mounts_map(ps).insert(x.0, (x.1, x.2)));
    } else {
        assert(q.drop_last() =~= ps.drop_last().update(i, x));
        lemma_mounts_map_update(ps.drop_last(), i, x);
        assert(ps.last().0 != x.0);
        assert(mounts_map(q) =~= mounts_map(ps).insert(x.0, (x.1, x.2)));
    }
}

pub proof fn lemma_mounts_map_push(ps: Seq<(Seq<char>, Seq<char>, MountStatus)>, x: (Seq<char>, Seq<char>, MountStatus))
    requires
        unique_ids(ps),
        forall|i: int| 0 <= i < ps.len() ==> ps[i].0 != x.0,
    ensures
        mounts_map(ps.push(x)) == mounts_map(ps).insert(x.0, (x.1, x.2)),
        unique_ids(ps.push(x)),
{
    assert(ps.push(x).drop_last() =~= ps);
}

/// Mounts and unmounts mount points, each operation all or nothing.
pub struct MountService {
    mounts: Vec<MountPoint>,
}

impl MountService {
    /// The mount points in the order they were first mounted.
    pub closed spec fn entries(&self) -> Seq<(Seq<char>, Seq<char>, MountStatus)> {
        point_views(self.mounts@)
    }

    /// The mount points by identifier.
    pub open spec fn mounts(&self) -> Map<Seq<char>, (Seq<char>, MountStatus)> {
        mounts_map(self.entries())
    }

    /// Every identifier occurs once.
    pub open spec fn wf(&self) -> bool {
        unique_ids(self.entries())
    }

    pub fn new() -> (r: Self)
        ensures
            r.wf(),
            r.mounts() == Map::<Seq<char>, (Seq<char>, MountStatus)>::empty(),
            r.entries().len() == 0,
    {
        MountService { mounts: Vec::new() }
    }

    fn index_of(&self, id: &str) -> (r: Option<usize>)
        requires
            self.wf(),
        ensures
            r matches Some(i) ==> i < self.entries().len() && self.entries()[i as int].0 == id@,
            r is None ==> forall|i: int| 0 <= i < self.entries().len() ==> self.entries()[i].0 != id@,
    {
        let n = self.mounts.len();
        for i in 0..n
            invariant
                n == self.mounts@.len(),
                forall|k: int| 0 <= k < i ==> self.entries()[k].0 != id@,
        {
            if str_eq(self.mounts[i].id.as_str(), id) {
                return Some(i);
            }
        }
        None
    }

    /// Mounts `point`: afterwards it is recorded as mounted, replacing any
    /// point with the same identifier; the others are unchanged.
    pub fn atomic_mount(&mut self, point: MountPoint) -> (r: CellResult<()>)
        requires
            old(self).wf(),
        ensures
            final(self).wf(),
            r is Ok,
            final(self).mounts() == old(self).mounts().insert(point.id@, (point.path@, MountStatus::Mounted)),
    {
        let mut mp = point;
        mp.status = MountStatus::Mounted;
        let ghost x = point_view(mp);
        let ghost before = self.entries();
        match self.index_of(mp.id.as_str()) {
            Some(i) => {
                self.mounts.set(i, mp);
                proof {
                    assert(self.entries() =~= before.update(i as int, x));
                    lemma_mounts_map_update(before, i as int, x);
                }
            },
            None => {
                self.mounts.push(mp);
                proof {
                    assert(self.entries() =~= before.push(x));
                    lemma_mounts_map_push(before, x);
                }
            },
        }
        Ok(())
    }

    /// Unmounts the point `point_id`; an unknown identifier is refused.
    pub fn atomic_unmount(&mut self, point_id: &str) -> (r: CellResult<()>)
        requires
            old(self).wf(),
        ensures
            final(self).wf(),
            old(self).mounts().contains_key(point_id@) ==> r is Ok
                && final(self).mounts() == old(self).mounts().insert(point_id@,
                    (old(self).mounts()[point_id@].0, MountStatus::Unmounted)),
            !old(self).mounts().contains_key(point_id@) ==> (r matches Err(CellError::NotFound(m))
                && m@ == "Mount point not found: "@ + point_id@) && final(self).mounts() == old(self).mounts(),
    {
        let ghost before = self.entries();
        proof {
            lemma_mounts_map_dom(before, point_id@);
        }
        match self.index_of(point_id) {
            Some(i) => {
                let updated = MountPoint {
                    id: self.mounts[i].id.clone(),
                    path: self.mounts[i].path.clone(),
                    status: MountStatus::Unmounted,
                };
                let ghost x = (before[i as int].0, before[i as int].1, MountStatus::Unmounted);
                assert(point_view(updated) == x);
                self.mounts.set(i, updated);
                proof {
                    assert(self.entries() =~= before.update(i as int, x));
                    lemma_mounts_map_update(before, i as int, x);
                    lemma_mounts_map_lookup(before, i as int);
                }
                Ok(())
            },
            None => {
                let mut m = owned("Mount point not found: ");
                push_str(&mut m, point_id);
                Err(CellError::NotFound(m))
            },
        }
    }

    /// The mount points, in the order they were first mounted.
    pub fn list_mounts(&self) -> (r: Vec<&MountPoint>)
        ensures
            r@.map_values(|p: &MountPoint| point_view(*p)) == self.entries(),
    {
        let mut r: Vec<&MountPoint> = Vec::new();
        let n = self.mounts.len();
        for i in 0..n
            invariant
                n == self.mounts@.len(),
                r@.len() == i,
                forall|k: int| 0 <= k < i ==> point_view(*(#[trigger] r@[k])) == self.entries()[k],
        {
            let ghost before = r@;
            r.push(&self.mounts[i]);
            assert(r@ == before.push(&self.mounts@[i as int]));
        }
        assert(r@.map_values(|p: &MountPoint| point_view(*p)) =~= self.entries());
        r
    }

    /// A listing of the mount points.
    pub fn format_mounts(&self) -> (r: String)
        ensures
            r@ == mounts_listing(self.entries()),
    {
        let mut o = owned("📦 Mount Points\n");
        push_repeat(&mut o, "=", 60);
        push_str(&mut o, "\n\n");
        let n = self.mounts.len();
        if n == 0 {
            push_str(&mut o, "(no mount points)\n");
            return o;
        }
        let ghost head = o@;
        for i in 0..n
            invariant
                n == self.mounts@.len(),
                o@ == head + mount_lines(self.entries(), i as nat),
        {
            let mp = &self.mounts[i];
            let status = match mp.status {
                MountStatus::Mounted => "✅ Mounted",
                MountStatus::Unmounted => "⭕ Unmounted",
                MountStatus::Error => "❌ Error",
            };
            push_str(&mut o, "  ");
            push_str(&mut o, status);
            push_str(&mut o, "  ");
            push_str(&mut o, mp.id.as_str());
            push_str(&mut o, " (");
            push_str(&mut o, mp.path.as_str());
            push_str(&mut o, ")\n");
            assert(o@ =~= head + mount_lines(self.entries(), (i + 1) as nat));
        }
        push_str(&mut o, "\nTotal: ");
        push_decimal(&mut o, n);
        push_str(&mut o, "\n");
        o
    }
}

pub proof fn lemma_mounts_map_lookup(ps: Seq<(Seq<char>, Seq<char>, MountStatus)>, i: int)
    requires
        unique_ids(ps),
        0 <= i < ps.len(),
    ensures
        mounts_map(ps).contains_key(ps[i].0),
        mounts_map(ps)[ps[i].0] == (ps[i].1, ps[i].2),
    decreases ps.len(),
{
    if i < ps.len() - 1 {
        lemma_mounts_map_lookup(ps.drop_last(), i);
        assert(ps.drop_last()[i] == ps[i]);
        assert(ps.last().0 != ps[i].0);
    }
}

pub open spec fn status_label(s: MountStatus) -> Seq<char> {
    match s {
        MountStatus::Mounted => "✅ Mounted"@,
        MountStatus::Unmounted => "⭕ Unmounted"@,
        MountStatus::Error => "❌ Error"@,
    }
}

/// The listing lines of the first `n` mount points.
pub open spec fn mount_lines(ps: Seq<(Seq<char>, Seq<char>, MountStatus)>, n: nat) -> Seq<char>
    decreases n,
{
    if n == 0 || n > ps.len() {
        Seq::empty()
    } else {
        let p = ps[n - 1];
        mount_lines(ps, (n - 1) as nat) + "  "@ + status_label(p.2) + "  "@ + p.0 + " ("@ + p.1 + ")\n"@
    }
}

/// The listing of the mount points.
pub open spec fn mounts_listing(ps: Seq<(Seq<char>, Seq<char>, MountStatus)>) -> Seq<char> {
    "📦 Mount Points\n"@ + repeat("="@, 60) + "\n\n"@ + if ps.len() == 0 {
        "(no mount points)\n"@
    } else {
        mount_lines(ps, ps.len()) + "\nTotal: "@ + decimal(ps.len()) + "\n"@
    }
}

/// Mounting then unmounting a point leaves it recorded, unmounted, with its path.
pub proof fn law_mount_then_unmount(m: Map<Seq<char>, (Seq<char>, MountStatus)>, id: Seq<char>, path: Seq<char>)
    ensures
        ({
            let mounted = m.insert(id, (path, MountStatus::Mounted));
            &&& mounted.contains_key(id)
            &&& mounted.insert(id, (mounted[id].0, MountStatus::Unmounted))
                == m.insert(id, (path, MountStatus::Unmounted))
        }),
{
    let mounted = m.insert(id, (path, MountStatus::Mounted));
    assert(mounted.insert(id, (mounted[id].0, MountStatus::Unmounted)) =~= m.insert(id, (path, MountStatus::Unmounted)));
}

impl Default for MountService {
    fn default() -> (r: Self)
        ensures
            r.wf(),
            r.entries().len() == 0,
    {
        Self::new()
    }
}

} // verus!
