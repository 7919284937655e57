use vstd::prelude::*;

use crate::error::ErrorView;
use crate::import::{started, ActionView, EventView, PhaseView, RunView};
use crate::reconcile::{
    added_count, imported, lemma_imported_contains, lemma_imported_extends, lemma_imported_fresh,
    lemma_imported_holds_remote, lemma_imported_known, lemma_imported_no_duplicates, Names,
};

verus! {

/// Where the modelled store fails: never, on the lookup of the name at a
/// position of the fetched list, or on its insertion. A failure carries its
/// description.
pub enum Fault {
    Never,
    OnLookup(nat, Seq<char>),
    OnInsert(nat, Seq<char>),
}

pub open spec fn lookup_fault(fault: Fault, i: nat) -> Option<Seq<char>> {
    match fault {
        Fault::OnLookup(j, m) => if j == i {
            Some(m)
        } else {
            None
        },
        _ => None,
    }
}

pub open spec fn insert_fault(fault: Fault, i: nat) -> Option<Seq<char>> {
    match fault {
        Fault::OnInsert(j, m) => if j == i {
            Some(m)
        } else {
            None
        },
        _ => None,
    }
}

/// A store holding `store` answers the request of `run`: a lookup tells
/// whether the name is held (an exact match), an insertion appends it. Both
/// fail where `fault` says so, and then change nothing.
pub open spec fn answer(store: Names, run: RunView, fault: Fault) -> (Names, EventView) {
    match run.action() {
        ActionView::FindByName(n) => match lookup_fault(fault, run.next) {
            Some(m) => (store, EventView::LookedUp(Err(m))),
            None => (store, EventView::LookedUp(Ok(store.contains(n)))),
        },
        ActionView::Insert(n) => match insert_fault(fault, run.next) {
            Some(m) => (store, EventView::Inserted(Err(m))),
            None => (store.push(n), EventView::Inserted(Ok(()))),
        },
        ActionView::Finish(_) => (store, EventView::Inserted(Ok(()))),
    }
}

/// A run and the store it talks to, after at most `fuel` exchanges, or
/// as soon as the run is over.
pub open spec fn drive(run: RunView, store: Names, fault: Fault, fuel: nat) -> (RunView, Names)
    decreases fuel,
{
    if fuel == 0 || run.action() is Finish {
        (run, store)
    } else {
        let (next_store, e) = answer(store, run, fault);
        drive(run.after(e), next_store, fault, (fuel - 1) as nat)
    }
}

/// A whole import against the modelled store: the outcome that the run
/// reports and what the store holds afterwards. Each name takes at most
/// two store operations.
pub open spec fn run_import(store: Names, fetched: Result<Names, Seq<char>>, fault: Fault) -> (
    Result<nat, ErrorView>,
    Names,
) {
    let start = started(fetched);
    let (end, after) = drive(start, store, fault, 2 * start.names.len());
    (end.action()->Finish_0, after)
}

/// What the store holds after a series of successful imports.
pub open spec fn imports_from(store: Names, runs: Seq<Names>) -> Names
    decreases runs.len(),
{
    if runs.len() == 0 {
        store
    } else {
        run_import(imports_from(store, runs.drop_last()), Ok(runs.last()), Fault::Never).1
    }
}

/// The fault strikes on the name at position `k`, if the run gets there.
spec fn strikes(store: Names, remote: Names, fault: Fault, k: nat) -> bool {
    &&& k < remote.len()
    &&& {
        ||| lookup_fault(fault, k) is Some
        ||| (insert_fault(fault, k) is Some && !imported(store, remote.take(k as int)).contains(
            remote[k as int],
        ))
    }
}

spec fn fault_at(fault: Fault) -> nat {
    match fault {
        Fault::Never => 0,
        Fault::OnLookup(j, _) => j,
        Fault::OnInsert(j, _) => j,
    }
}

spec fn fault_text(fault: Fault) -> Seq<char> {
    match fault {
        Fault::Never => Seq::empty(),
        Fault::OnLookup(_, m) => m,
        Fault::OnInsert(_, m) => m,
    }
}

/// The run that has handled the first `i` names without failing.
spec fn run_at(store: Names, remote: Names, i: nat) -> RunView {
    RunView {
        names: remote,
        next: i,
        added: added_count(store, remote.take(i as int)),
        phase: PhaseView::Lookup,
    }
}

/// Where a run that starts at position `i` ends.
spec fn run_end(store: Names, remote: Names, fault: Fault) -> (RunView, Names) {
    let j = fault_at(fault);
    if fault !is Never && strikes(store, remote, fault, j) {
        (
            RunView {
                phase: PhaseView::Failed(ErrorView::Store(fault_text(fault))),
                ..run_at(store, remote, j)
            },
            imported(store, remote.take(j as int)),
        )
    } else {
        (run_at(store, remote, remote.len()), imported(store, remote))
    }
}

proof fn lemma_take_step(remote: Names, i: int)
    requires
        0 <= i < remote.len(),
    ensures
        remote.take(i + 1).drop_last() == remote.take(i),
        remote.take(i + 1 as int).last() == remote[i],
        remote.take(i + 1 as int).len() == i + 1,
{
    assert(remote.take(i + 1 as int).drop_last() =~= remote.take(i));
}

proof fn lemma_drive_from(store: Names, remote: Names, fault: Fault, i: nat, fuel: nat)
    requires
        i <= remote.len(),
        fuel >= 2 * (remote.len() - i),
        !(fault !is Never && fault_at(fault) < i && strikes(store, remote, fault, fault_at(fault))),
    ensures
        drive(run_at(store, remote, i), imported(store, remote.take(i as int)), fault, fuel)
            == run_end(store, remote, fault),
    decreases remote.len() - i,
{
    let run = run_at(store, remote, i);
    let held = imported(store, remote.take(i as int));
    lemma_imported_extends(store, remote.take(i as int));
    if i == remote.len() {
        assert(remote.take(i as int) =~= remote);
        assert(run.action() is Finish);
    } else {
        let name = remote[i as int];
        lemma_take_step(remote, i as int);
        let next_held = imported(store, remote.take(i + 1 as int));
        lemma_imported_extends(store, remote.take(i + 1 as int));
        assert(run.action() == ActionView::FindByName(name));
        match lookup_fault(fault, i) {
            Some(m) => {
                let failed = run.after(EventView::LookedUp(Err(m)));
                assert(failed.action() is Finish);
                assert(drive(failed, held, fault, (fuel - 1) as nat) == (failed, held));
            },
            None => {
                let found = held.contains(name);
                let run1 = run.after(EventView::LookedUp(Ok(found)));
                if found {
                    assert(next_held == held);
                    assert(run1 == run_at(store, remote, i + 1));
                    lemma_drive_from(store, remote, fault, i + 1, (fuel - 1) as nat);
                } else {
                    assert(next_held == held.push(name));
                    assert(run1.action() == ActionView::Insert(name));
                    match insert_fault(fault, i) {
                        Some(m) => {
                            let failed = run1.after(EventView::Inserted(Err(m)));
                            assert(failed.action() is Finish);
                            assert(drive(failed, held, fault, (fuel - 2) as nat) == (
                                failed,
                                held,
                            ));
                            assert(drive(run1, held, fault, (fuel - 1) as nat) == (failed, held));
                        },
                        None => {
                            let run2 = run1.after(EventView::Inserted(Ok(())));
                            assert(run2 == run_at(store, remote, i + 1));
                            lemma_drive_from(store, remote, fault, i + 1, (fuel - 2) as nat);
                            assert(drive(run1, held, fault, (fuel - 1) as nat) == drive(
                                run2,
                                next_held,
                                fault,
                                (fuel - 2) as nat,
                            ));
                        },
                    }
                }
            },
        }
    }
}

/// A successful fetch followed by a store that never fails: the import
/// inserts exactly the names that the reconciliation adds, and reports
/// their number.
pub proof fn lemma_import_reconciles(store: Names, remote: Names)
    ensures
        run_import(store, Ok(remote), Fault::Never) == (
            Ok::<nat, ErrorView>(added_count(store, remote)),
            imported(store, remote),
        ),
{
    assert(remote.take(0) =~= Seq::<Seq<char>>::empty());
    assert(run_at(store, remote, 0) == started(Ok(remote)));
    lemma_drive_from(store, remote, Fault::Never, 0, 2 * remote.len());
    assert(remote.take(remote.len() as int) =~= remote);
    assert(run_at(store, remote, remote.len()).action() == ActionView::Finish(
        Ok(added_count(store, remote)),
    ));
}

/// Distinct remote names that the store does not hold are all inserted:
/// the count is the number of remote names, and each is held afterwards.
pub proof fn lemma_import_fresh_names(store: Names, remote: Names)
    requires
        remote.no_duplicates(),
        forall|i: int| 0 <= i < remote.len() ==> !store.contains(#[trigger] remote[i]),
    ensures
        run_import(store, Ok(remote), Fault::Never).0 == Ok::<nat, ErrorView>(remote.len()),
        run_import(store, Ok(remote), Fault::Never).1 == store + remote,
        forall|i: int|
            0 <= i < remote.len() ==> run_import(store, Ok(remote), Fault::Never).1.contains(
                #[trigger] remote[i],
            ),
{
    lemma_import_reconciles(store, remote);
    lemma_imported_fresh(store, remote);
    lemma_imported_holds_remote(store, remote);
}

/// Remote names that the store already holds are all skipped: the count is
/// zero and the store is unchanged.
pub proof fn lemma_import_known_names(store: Names, remote: Names)
    requires
        forall|i: int| 0 <= i < remote.len() ==> store.contains(#[trigger] remote[i]),
    ensures
        run_import(store, Ok(remote), Fault::Never) == (Ok::<nat, ErrorView>(0), store),
{
    lemma_import_reconciles(store, remote);
    lemma_imported_known(store, remote);
}

/// A second import of an unchanged remote list, right after the first,
/// adds nothing.
pub proof fn lemma_import_idempotent(store: Names, remote: Names)
    ensures
        ({
            let once = run_import(store, Ok(remote), Fault::Never).1;
            run_import(once, Ok(remote), Fault::Never) == (Ok::<nat, ErrorView>(0), once)
        }),
{
    lemma_import_reconciles(store, remote);
    lemma_imported_holds_remote(store, remote);
    lemma_import_known_names(imported(store, remote), remote);
}

/// When the fetch fails, the import reports that error and the store is
/// left untouched, however the store would have behaved.
pub proof fn lemma_fetch_failure_changes_nothing(store: Names, text: Seq<char>, fault: Fault)
    ensures
        run_import(store, Err(text), fault) == (
            Err::<nat, ErrorView>(ErrorView::Fetch(text)),
            store,
        ),
{
    assert(started(Err(text)).action() is Finish);
}

/// When a store operation fails on the name at position `j`, the import
/// reports a store error, and the records inserted for the names before it
/// stay: the store holds what a successful import of those names leaves.
pub proof fn lemma_store_failure_keeps_earlier(
    store: Names,
    remote: Names,
    j: nat,
    text: Seq<char>,
    on_insert: bool,
)
    requires
        j < remote.len(),
        on_insert ==> !run_import(store, Ok(remote.take(j as int)), Fault::Never).1.contains(
            remote[j as int],
        ),
    ensures
        ({
            let fault = if on_insert {
                Fault::OnInsert(j, text)
            } else {
                Fault::OnLookup(j, text)
            };
            run_import(store, Ok(remote), fault) == (
                Err::<nat, ErrorView>(ErrorView::Store(text)),
                run_import(store, Ok(remote.take(j as int)), Fault::Never).1,
            )
        }),
{
    let fault = if on_insert {
        Fault::OnInsert(j, text)
    } else {
        Fault::OnLookup(j, text)
    };
    lemma_import_reconciles(store, remote.take(j as int));
    assert(remote.take(0) =~= Seq::<Seq<char>>::empty());
    assert(run_at(store, remote, 0) == started(Ok(remote)));
    lemma_drive_from(store, remote, fault, 0, 2 * remote.len());
    assert(strikes(store, remote, fault, j));
}

/// After any series of successful imports into an empty store, the store
/// holds each name that any of them fetched, exactly once, and no other.
pub proof fn lemma_imports_hold_union(runs: Seq<Names>)
    ensures
        imports_from(Seq::empty(), runs).no_duplicates(),
        forall|x: Seq<char>|
            #![trigger imports_from(Seq::empty(), runs).contains(x)]
            imports_from(Seq::empty(), runs).contains(x) <==> exists|i: int|
                0 <= i < runs.len() && (#[trigger] runs[i]).contains(x),
    decreases runs.len(),
{
    let held = imports_from(Seq::empty(), runs);
    if runs.len() == 0 {
        assert(Seq::<Seq<char>>::empty().no_duplicates());
    } else {
        let init = runs.drop_last();
        let before = imports_from(Seq::empty(), init);
        lemma_imports_hold_union(init);
        lemma_import_reconciles(before, runs.last());
        lemma_imported_no_duplicates(before, runs.last());
        assert forall|x: Seq<char>| #[trigger] held.contains(x) <==> exists|i: int|
            0 <= i < runs.len() && (#[trigger] runs[i]).contains(x) by {
            lemma_imported_contains(before, runs.last(), x);
            if before.contains(x) {
                let i = choose|i: int| 0 <= i < init.len() && (#[trigger] init[i]).contains(x);
                assert(runs[i] == init[i]);
            }
            if exists|i: int| 0 <= i < runs.len() && (#[trigger] runs[i]).contains(x) {
                let i = choose|i: int| 0 <= i < runs.len() && (#[trigger] runs[i]).contains(x);
                if i < init.len() {
                    assert(init[i] == runs[i]);
                }
            }
        }
    }
}

} // verus!
