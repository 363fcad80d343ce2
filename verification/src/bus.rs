//! The shared serial bus as the driver sees it: the transfers it issues and
//! the exclusive-ownership (lock) actions that bracket a multi-chunk burst.
//!
//! A drawing operation is described by a sequence of [`BusAction`]s. The outer
//! layer that owns the hardware performs them in order: a `Write` becomes one
//! bus transfer, `AcquireBus` takes the bus's exclusive-ownership primitive
//! inside a scoped guard, and `ReleaseBus` is where that guard is dropped on
//! the normal path (on a failed transfer the guard drops early, so the lock is
//! released on every exit path).
use vstd::prelude::*;

verus! {

/// How many data lines the bus drives per clock during a transfer.
#[derive(Clone, Copy, PartialEq, Eq, Structural, Debug)]
pub enum LineWidth {
    Single,
    Quad,
}

/// One bus transfer: the bytes shifted out, the lane width, and whether
/// chip-select stays asserted when the transfer completes (so that the next
/// transfer continues the same logical burst).
#[derive(Debug, PartialEq, Eq)]
pub struct BusWrite {
    pub bytes: Vec<u8>,
    pub width: LineWidth,
    pub keep_cs: bool,
}

/// One step of a transaction plan.
#[derive(Debug, PartialEq, Eq)]
pub enum BusAction {
    Write(BusWrite),
    AcquireBus,
    ReleaseBus,
}

/// Mathematical model of a [`BusWrite`].
#[verifier::ext_equal]
pub struct WriteModel {
    pub bytes: Seq<u8>,
    pub quad: bool,
    pub keep_cs: bool,
}

/// Mathematical model of a [`BusAction`].
#[verifier::ext_equal]
pub enum ActionModel {
    Write(WriteModel),
    Acquire,
    Release,
}

impl View for BusWrite {
    type V = WriteModel;

    open spec fn view(&self) -> WriteModel {
        WriteModel { bytes: self.bytes@, quad: self.width is Quad, keep_cs: self.keep_cs }
    }
}

impl View for BusAction {
    type V = ActionModel;

    open spec fn view(&self) -> ActionModel {
        match self {
            BusAction::Write(w) => ActionModel::Write(w@),
            BusAction::AcquireBus => ActionModel::Acquire,
            BusAction::ReleaseBus => ActionModel::Release,
        }
    }
}

/// The model of a whole plan.
pub open spec fn plan_view(plan: Seq<BusAction>) -> Seq<ActionModel> {
    plan.map_values(|a: BusAction| a@)
}

pub proof fn lemma_plan_view_push(plan: Seq<BusAction>, a: BusAction)
    ensures
        plan_view(plan.push(a)) == plan_view(plan).push(a@),
{
    assert(plan_view(plan.push(a)) =~= plan_view(plan).push(a@));
}

pub proof fn lemma_plan_view_add(p: Seq<BusAction>, q: Seq<BusAction>)
    ensures
        plan_view(p + q) == plan_view(p) + plan_view(q),
{
    assert(plan_view(p + q) =~= plan_view(p) + plan_view(q));
}

/// True of a plan fragment that only transfers data and never touches the
/// bus-ownership lock.
pub open spec fn write_only(s: Seq<ActionModel>) -> bool {
    forall|i: int| 0 <= i < s.len() ==> s[i] is Write
}

/// How often a plan takes the bus-ownership lock.
pub open spec fn acquire_count(s: Seq<ActionModel>) -> int
    decreases s.len(),
{
    if s.len() == 0 {
        0
    } else {
        acquire_count(s.drop_last()) + if s.last() is Acquire {
            1int
        } else {
            0int
        }
    }
}

/// How often a plan gives the bus-ownership lock back.
pub open spec fn release_count(s: Seq<ActionModel>) -> int
    decreases s.len(),
{
    if s.len() == 0 {
        0
    } else {
        release_count(s.drop_last()) + if s.last() is Release {
            1int
        } else {
            0int
        }
    }
}

/// The lock discipline a plan must obey so that a single scoped guard can
/// execute it: reading the plan from the start, the lock is never released
/// before it is acquired, is held at most once, and every stopping point —
/// including one forced by a failed transfer — leaves at most one acquisition
/// for the guard to undo.
pub open spec fn lock_scoped(s: Seq<ActionModel>) -> bool {
    forall|k: int|
        0 <= k <= s.len() ==> #[trigger] release_count(s.take(k)) <= acquire_count(s.take(k))
            <= release_count(s.take(k)) + 1 && acquire_count(s.take(k)) <= 1
}

pub proof fn lemma_write_only_counts(s: Seq<ActionModel>)
    requires
        write_only(s),
    ensures
        acquire_count(s) == 0,
        release_count(s) == 0,
    decreases s.len(),
{
    if s.len() > 0 {
        assert(write_only(s.drop_last()));
        lemma_write_only_counts(s.drop_last());
    }
}

pub proof fn lemma_count_add(s: Seq<ActionModel>, t: Seq<ActionModel>)
    ensures
        acquire_count(s + t) == acquire_count(s) + acquire_count(t),
        release_count(s + t) == release_count(s) + release_count(t),
    decreases t.len(),
{
    if t.len() == 0 {
        assert(s + t =~= s);
    } else {
        assert((s + t).drop_last() =~= s + t.drop_last());
        assert((s + t).last() == t.last());
        lemma_count_add(s, t.drop_last());
    }
}

pub proof fn lemma_write_only_take(s: Seq<ActionModel>, k: int)
    requires
        write_only(s),
        0 <= k <= s.len(),
    ensures
        write_only(s.take(k)),
{
    assert forall|i: int| 0 <= i < s.take(k).len() implies s.take(k)[i] is Write by {
        assert(s.take(k)[i] == s[i]);
    }
}

/// A plan with no lock actions at all trivially obeys the scoped-lock
/// discipline.
pub proof fn lemma_write_only_scoped(s: Seq<ActionModel>)
    requires
        write_only(s),
    ensures
        lock_scoped(s),
        acquire_count(s) == 0,
        release_count(s) == 0,
{
    lemma_write_only_counts(s);
    assert forall|k: int| 0 <= k <= s.len() implies release_count(s.take(k)) <= acquire_count(
        s.take(k),
    ) <= release_count(s.take(k)) + 1 && acquire_count(s.take(k)) <= 1 by {
        lemma_write_only_take(s, k);
        lemma_write_only_counts(s.take(k));
    }
}

/// A plan of the shape "writes, acquire, writes, release, writes" — one
/// strictly scoped lock around the middle of a burst — obeys the scoped-lock
/// discipline, acquires exactly once and releases exactly once.
pub proof fn lemma_single_scope(a: Seq<ActionModel>, m: Seq<ActionModel>, z: Seq<ActionModel>)
    requires
        write_only(a),
        write_only(m),
        write_only(z),
    ensures
        acquire_count(a + seq![ActionModel::Acquire] + m + seq![ActionModel::Release] + z) == 1,
        release_count(a + seq![ActionModel::Acquire] + m + seq![ActionModel::Release] + z) == 1,
        lock_scoped(a + seq![ActionModel::Acquire] + m + seq![ActionModel::Release] + z),
{
    let s = a + seq![ActionModel::Acquire] + m + seq![ActionModel::Release] + z;
    lemma_write_only_counts(a);
    lemma_write_only_counts(m);
    lemma_write_only_counts(z);
    lemma_count_add(a, seq![ActionModel::Acquire]);
    lemma_count_add(a + seq![ActionModel::Acquire], m);
    lemma_count_add(a + seq![ActionModel::Acquire] + m, seq![ActionModel::Release]);
    lemma_count_add(a + seq![ActionModel::Acquire] + m + seq![ActionModel::Release], z);
    reveal_with_fuel(acquire_count, 2);
    reveal_with_fuel(release_count, 2);
    assert(acquire_count(seq![ActionModel::Acquire]) == 1);
    assert(release_count(seq![ActionModel::Acquire]) == 0);
    assert(acquire_count(seq![ActionModel::Release]) == 0);
    assert(release_count(seq![ActionModel::Release]) == 1);
    assert forall|k: int| 0 <= k <= s.len() implies release_count(s.take(k)) <= acquire_count(
        s.take(k),
    ) <= release_count(s.take(k)) + 1 && acquire_count(s.take(k)) <= 1 by {
        let la = a.len() as int;
        let lm = m.len() as int;
        if k <= la {
            assert(s.take(k) =~= a.take(k));
            lemma_write_only_take(a, k);
            lemma_write_only_counts(s.take(k));
        } else if k <= la + 1 + lm {
            assert(s.take(k) =~= a + seq![ActionModel::Acquire] + m.take(k - la - 1));
            lemma_write_only_take(m, k - la - 1);
            lemma_write_only_counts(m.take(k - la - 1));
            lemma_count_add(a, seq![ActionModel::Acquire]);
            lemma_count_add(a + seq![ActionModel::Acquire], m.take(k - la - 1));
        } else {
            assert(s.take(k) =~= a + seq![ActionModel::Acquire] + m + seq![ActionModel::Release]
                + z.take(k - la - 2 - lm));
            lemma_write_only_take(z, k - la - 2 - lm);
            lemma_write_only_counts(z.take(k - la - 2 - lm));
            lemma_count_add(a + seq![ActionModel::Acquire] + m + seq![ActionModel::Release],
                z.take(k - la - 2 - lm));
        }
    }
    assert(s.take(s.len() as int) =~= s);
}

} // verus!
