use vstd::prelude::*;

verus! {

/// The names that a store holds, in the order they were inserted.
pub type Names = Seq<Seq<char>>;

/// The names a store holds after `remote` was imported into `store`: each
/// remote name, in order, is appended unless the store already holds it.
pub open spec fn imported(store: Names, remote: Names) -> Names
    decreases remote.len(),
{
    if remote.len() == 0 {
        store
    } else {
        let before = imported(store, remote.drop_last());
        if before.contains(remote.last()) {
            before
        } else {
            before.push(remote.last())
        }
    }
}

/// How many records an import of `remote` into `store` inserts.
pub open spec fn added_count(store: Names, remote: Names) -> nat {
    (imported(store, remote).len() - store.len()) as nat
}

/// An import only appends: the old contents stay, in place.
pub proof fn lemma_imported_extends(store: Names, remote: Names)
    ensures
        store.len() <= imported(store, remote).len() <= store.len() + remote.len(),
        imported(store, remote).subrange(0, store.len() as int) == store,
    decreases remote.len(),
{
    if remote.len() > 0 {
        lemma_imported_extends(store, remote.drop_last());
        let before = imported(store, remote.drop_last());
        assert(before.push(remote.last()).subrange(0, store.len() as int) =~= before.subrange(
            0,
            store.len() as int,
        ));
    }
}

/// A name is held after an import exactly when it was held before or is a
/// remote name.
pub proof fn lemma_imported_contains(store: Names, remote: Names, x: Seq<char>)
    ensures
        imported(store, remote).contains(x) <==> (store.contains(x) || remote.contains(x)),
    decreases remote.len(),
{
    if remote.len() > 0 {
        let init = remote.drop_last();
        lemma_imported_contains(store, init, x);
        let before = imported(store, init);
        assert(remote =~= init.push(remote.last()));
        if init.contains(x) {
            let k = choose|k: int| 0 <= k < init.len() && init[k] == x;
            assert(remote[k] == x);
        }
        if remote.contains(x) && x != remote.last() {
            let k = choose|k: int| 0 <= k < remote.len() && remote[k] == x;
            assert(init[k] == x);
        }
        if before.contains(x) && !before.contains(remote.last()) {
            let k = choose|k: int| 0 <= k < before.len() && before[k] == x;
            assert(before.push(remote.last())[k] == x);
        }
        if !before.contains(remote.last()) {
            assert(before.push(remote.last())[before.len() as int] == remote.last());
            if before.push(remote.last()).contains(x) && x != remote.last() {
                let k = choose|k: int|
                    0 <= k < before.len() + 1 && before.push(remote.last())[k] == x;
                assert(before[k] == x);
            }
        }
    }
}

/// An import keeps a store free of repeated names.
pub proof fn lemma_imported_no_duplicates(store: Names, remote: Names)
    requires
        store.no_duplicates(),
    ensures
        imported(store, remote).no_duplicates(),
    decreases remote.len(),
{
    if remote.len() > 0 {
        lemma_imported_no_duplicates(store, remote.drop_last());
        let before = imported(store, remote.drop_last());
        if !before.contains(remote.last()) {
            let after = before.push(remote.last());
            assert forall|i: int, j: int| 0 <= i < after.len() && 0 <= j < after.len() && i != j
                implies after[i] != after[j] by {
                if i == before.len() {
                    assert(before[j] == after[j]);
                } else if j == before.len() {
                    assert(before[i] == after[i]);
                }
            }
        }
    }
}

/// Importing names that the store already holds changes nothing.
pub proof fn lemma_imported_known(store: Names, remote: Names)
    requires
        forall|i: int| 0 <= i < remote.len() ==> store.contains(#[trigger] remote[i]),
    ensures
        imported(store, remote) == store,
    decreases remote.len(),
{
    if remote.len() > 0 {
        let init = remote.drop_last();
        assert forall|i: int| 0 <= i < init.len() implies store.contains(#[trigger] init[i]) by {
            assert(init[i] == remote[i]);
        }
        lemma_imported_known(store, init);
        assert(store.contains(remote[remote.len() - 1]));
    }
}

/// Importing distinct names that the store does not hold appends them all.
pub proof fn lemma_imported_fresh(store: Names, remote: Names)
    requires
        remote.no_duplicates(),
        forall|i: int| 0 <= i < remote.len() ==> !store.contains(#[trigger] remote[i]),
    ensures
        imported(store, remote) == store + remote,
    decreases remote.len(),
{
    if remote.len() > 0 {
        let init = remote.drop_last();
        let x = remote.last();
        assert forall|i: int| 0 <= i < init.len() implies !store.contains(#[trigger] init[i]) by {
            assert(init[i] == remote[i]);
        }
        lemma_imported_fresh(store, init);
        assert(!store.contains(remote[remote.len() - 1]));
        if (store + init).contains(x) {
            let k = choose|k: int| 0 <= k < (store + init).len() && (store + init)[k] == x;
            if k < store.len() {
                assert(store[k] == x);
            } else {
                assert(remote[k - store.len()] == x);
            }
        }
        assert((store + init).push(x) =~= store + remote);
    }
}

/// Every remote name is held after an import.
pub proof fn lemma_imported_holds_remote(store: Names, remote: Names)
    ensures
        forall|i: int| 0 <= i < remote.len() ==> imported(store, remote).contains(#[trigger] remote[i]),
{
    assert forall|i: int| 0 <= i < remote.len() implies imported(store, remote).contains(
        #[trigger] remote[i],
    ) by {
        lemma_imported_contains(store, remote, remote[i]);
    }
}

} // verus!
