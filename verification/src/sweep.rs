//! Retention sweeper: which stored entries one age-based sweep pass removes,
//! and the sweeper's two-state loop. Deciding is pure; the enumeration and
//! the deletions themselves happen at the caller's edge, and a failed
//! deletion there never aborts a pass.

use vstd::prelude::*;

verus! {

/// The sweeper's perpetual loop alternates between idling and scanning.
#[derive(Clone, Copy, PartialEq, Eq, Structural, Debug)]
pub enum SweepState {
    Sleeping,
    Sweeping,
}

/// The state the sweeper enters when the current state's work (an idle
/// interval, or one scan of the storage roots) has finished.
pub fn sweeper_next(s: SweepState) -> (r: SweepState)
    ensures
        s == SweepState::Sleeping ==> r == SweepState::Sweeping,
        s == SweepState::Sweeping ==> r == SweepState::Sleeping,
{
    match s {
        SweepState::Sleeping => SweepState::Sweeping,
        SweepState::Sweeping => SweepState::Sleeping,
    }
}

/// True when an entry stamped `ts` (seconds since some epoch) is, at time
/// `now`, strictly older than `max_age` seconds. A timestamp in the future
/// never counts as expired.
pub open spec fn spec_expired(now: u64, ts: u64, max_age: u64) -> bool {
    ts <= now && now - ts > max_age
}

/// Age test shared by both storage roots.
pub fn expired(now: u64, ts: u64, max_age: u64) -> (r: bool)
    ensures
        r == spec_expired(now, ts, max_age),
{
    ts <= now && now - ts > max_age
}

/// What one sweep pass sees of a storage entry: its name, whether it is a
/// directory, and its creation and modification stamps where the filesystem
/// offers them (seconds since the epoch).
pub struct EntryMeta {
    pub name: String,
    pub is_dir: bool,
    pub created: Option<u64>,
    pub modified: Option<u64>,
}

/// The stamp an artifact directory is aged by: creation time, falling back
/// to modification time where creation time is unavailable.
pub open spec fn effective_birth(created: Option<u64>, modified: Option<u64>) -> Option<u64> {
    match created {
        Some(t) => Some(t),
        None => modified,
    }
}

/// An artifact-store entry the sweep removes: a directory whose age, by its
/// effective stamp, strictly exceeds the threshold. An entry with no usable
/// stamp is left alone.
pub open spec fn artifact_sweep_pred(e: EntryMeta, now: u64, max_age: u64) -> bool {
    e.is_dir && match effective_birth(e.created, e.modified) {
        Some(t) => spec_expired(now, t, max_age),
        None => false,
    }
}

/// A staging-root entry the sweep removes: a plain file whose modification
/// age strictly exceeds the threshold.
pub open spec fn upload_sweep_pred(e: EntryMeta, now: u64, max_age: u64) -> bool {
    !e.is_dir && match e.modified {
        Some(t) => spec_expired(now, t, max_age),
        None => false,
    }
}

/// Decides one artifact-store entry.
pub fn artifact_entry_expired(e: &EntryMeta, now: u64, max_age: u64) -> (r: bool)
    ensures
        r == artifact_sweep_pred(*e, now, max_age),
{
    if !e.is_dir {
        return false;
    }
    let ts = match e.created {
        Some(t) => Some(t),
        None => e.modified,
    };
    match ts {
        Some(t) => expired(now, t, max_age),
        None => false,
    }
}

/// Decides one staging-root entry.
pub fn upload_entry_expired(e: &EntryMeta, now: u64, max_age: u64) -> (r: bool)
    ensures
        r == upload_sweep_pred(*e, now, max_age),
{
    if e.is_dir {
        return false;
    }
    match e.modified {
        Some(t) => expired(now, t, max_age),
        None => false,
    }
}

/// The names of the entries satisfying `pred`, in enumeration order.
pub open spec fn names_where(entries: Seq<EntryMeta>, pred: spec_fn(EntryMeta) -> bool) -> Seq<
    Seq<char>,
>
    decreases entries.len(),
{
    if entries.len() == 0 {
        seq![]
    } else {
        let rest = names_where(entries.drop_last(), pred);
        if pred(entries.last()) {
            rest.push(entries.last().name@)
        } else {
            rest
        }
    }
}

/// A name is planned exactly when some entry of that name satisfies `pred`.
pub proof fn lemma_names_where_membership(
    entries: Seq<EntryMeta>,
    pred: spec_fn(EntryMeta) -> bool,
    name: Seq<char>,
)
    ensures
        names_where(entries, pred).contains(name) <==> (exists|i: int|
            0 <= i < entries.len() && #[trigger] pred(entries[i]) && entries[i].name@ == name),
    decreases entries.len(),
{
    if entries.len() > 0 {
        let prefix = entries.drop_last();
        lemma_names_where_membership(prefix, pred, name);
        let rest = names_where(prefix, pred);
        if pred(entries.last()) {
            let out = rest.push(entries.last().name@);
            if out.contains(name) {
                let j = choose|j: int| 0 <= j < out.len() && out[j] == name;
                if j < rest.len() {
                    assert(rest.contains(name));
                } else {
                    assert(entries.last().name@ == name);
                    assert(pred(entries[entries.len() - 1]));
                }
            }
            if exists|i: int|
                0 <= i < entries.len() && #[trigger] pred(entries[i]) && entries[i].name@
                    == name {
                let i = choose|i: int|
                    0 <= i < entries.len() && #[trigger] pred(entries[i]) && entries[i].name@
                        == name;
                if i < entries.len() - 1 {
                    assert(pred(prefix[i]) && prefix[i].name@ == name);
                    assert(rest.contains(name));
                    let j = choose|j: int| 0 <= j < rest.len() && rest[j] == name;
                    assert(out[j] == name);
                } else {
                    assert(out[rest.len() as int] == name);
                }
            }
        } else {
            if rest.contains(name) {
                let i = choose|i: int|
                    0 <= i < prefix.len() && #[trigger] pred(prefix[i]) && prefix[i].name@ == name;
                assert(pred(entries[i]) && entries[i].name@ == name);
            }
            if exists|i: int|
                0 <= i < entries.len() && #[trigger] pred(entries[i]) && entries[i].name@
                    == name {
                let i = choose|i: int|
                    0 <= i < entries.len() && #[trigger] pred(entries[i]) && entries[i].name@
                        == name;
                assert(i < entries.len() - 1);
                assert(pred(prefix[i]) && prefix[i].name@ == name);
            }
        }
    }
}

/// Plans one pass over the artifact store: the names of the directories to
/// remove, in enumeration order.
pub fn plan_artifact_sweep(entries: &Vec<EntryMeta>, now: u64, max_age: u64) -> (r: Vec<String>)
    ensures
        r.deep_view() == names_where(
            entries@,
            |e: EntryMeta| artifact_sweep_pred(e, now, max_age),
        ),
{
    let ghost pred = |e: EntryMeta| artifact_sweep_pred(e, now, max_age);
    let mut r: Vec<String> = Vec::new();
    let mut k: usize = 0;
    proof {
        assert(entries@.take(0) =~= Seq::<EntryMeta>::empty());
        assert(r.deep_view() =~= names_where(entries@.take(0), pred));
    }
    while k < entries.len()
        invariant
            0 <= k <= entries@.len(),
            pred == (|e: EntryMeta| artifact_sweep_pred(e, now, max_age)),
            r.deep_view() == names_where(entries@.take(k as int), pred),
        decreases entries@.len() - k,
    {
        proof {
            assert(entries@.take(k as int + 1).drop_last() =~= entries@.take(k as int));
            assert(entries@.take(k as int + 1).last() == entries@[k as int]);
        }
        let e = &entries[k];
        if artifact_entry_expired(e, now, max_age) {
            let ghost old_dv = r.deep_view();
            r.push(e.name.clone());
            proof {
                assert(r.deep_view() =~= old_dv.push(entries@[k as int].name@));
            }
        }
        k = k + 1;
    }
    proof {
        assert(entries@.take(entries@.len() as int) =~= entries@);
    }
    r
}

/// Plans one pass over the upload staging root: the names of the stale files
/// to remove, in enumeration order.
pub fn plan_upload_sweep(entries: &Vec<EntryMeta>, now: u64, max_age: u64) -> (r: Vec<String>)
    ensures
        r.deep_view() == names_where(entries@, |e: EntryMeta| upload_sweep_pred(e, now, max_age)),
{
    let ghost pred = |e: EntryMeta| upload_sweep_pred(e, now, max_age);
    let mut r: Vec<String> = Vec::new();
    let mut k: usize = 0;
    proof {
        assert(entries@.take(0) =~= Seq::<EntryMeta>::empty());
        assert(r.deep_view() =~= names_where(entries@.take(0), pred));
    }
    while k < entries.len()
        invariant
            0 <= k <= entries@.len(),
            pred == (|e: EntryMeta| upload_sweep_pred(e, now, max_age)),
            r.deep_view() == names_where(entries@.take(k as int), pred),
        decreases entries@.len() - k,
    {
        proof {
            assert(entries@.take(k as int + 1).drop_last() =~= entries@.take(k as int));
            assert(entries@.take(k as int + 1).last() == entries@[k as int]);
        }
        let e = &entries[k];
        if upload_entry_expired(e, now, max_age) {
            let ghost old_dv = r.deep_view();
            r.push(e.name.clone());
            proof {
                assert(r.deep_view() =~= old_dv.push(entries@[k as int].name@));
            }
        }
        k = k + 1;
    }
    proof {
        assert(entries@.take(entries@.len() as int) =~= entries@);
    }
    r
}

/// The retention boundary: a directory entry with a usable stamp is removed
/// exactly when its age strictly exceeds the threshold — so one strictly
/// older is removed by the next pass, and one strictly younger (or exactly
/// at the threshold) is retained.
pub proof fn lemma_retention_boundary(e: EntryMeta, now: u64, t: u64, max_age: u64)
    requires
        e.is_dir,
        effective_birth(e.created, e.modified) == Some(t),
        t <= now,
    ensures
        artifact_sweep_pred(e, now, max_age) == (now - t > max_age),
{
}

} // verus!
