//! The directory mirror: make the remote namespace under a prefix an exact
//! copy of a local directory tree, by wiping the prefix and re-uploading
//! one object per enumerated file, then joining the batch.

use vstd::prelude::*;
use crate::content_type::mime_of;
use crate::content_type::resolved_mime;
use crate::keys::has_prefix;
use crate::keys::key_of;
use crate::keys::lemma_key_of_has_prefix;
use crate::keys::object_key;
use crate::mime_layer::MimeGuessAccessor;
use crate::storage::order_outside;
use crate::storage::ObjectV;
use crate::tasks::applied;
use crate::tasks::applied_order;
use crate::tasks::ConcurrentUploadTasks;
use crate::tasks::LocalFile;
use crate::tasks::MirrorResult;
use crate::tasks::TaskV;

verus! {

/// The upload tasks a mirror of `files` under `prefix` submits: one per
/// file, in enumeration order, keyed by the file's derived remote key,
/// with no explicit content type.
pub open spec fn mirror_tasks(prefix: Seq<char>, files: Seq<LocalFile>) -> Seq<TaskV> {
    files.map_values(
        |f: LocalFile| TaskV { key: key_of(prefix, f.rel_path@), data: f.data@, content_type: None },
    )
}

/// The derived remote keys of a mirror, as a set.
pub open spec fn mirror_keys(prefix: Seq<char>, files: Seq<LocalFile>) -> Set<Seq<char>> {
    files.map_values(|f: LocalFile| key_of(prefix, f.rel_path@)).to_set()
}

/// The namespace left by a mirror of `files` under `prefix` over `pre`:
/// the prefix wiped, then every task written in order.
pub open spec fn mirror_map(
    pre: Map<Seq<char>, ObjectV>,
    prefix: Seq<char>,
    files: Seq<LocalFile>,
) -> Map<Seq<char>, ObjectV> {
    applied(
        pre.remove_keys(pre.dom().filter(|k: Seq<char>| has_prefix(k, prefix))),
        mirror_tasks(prefix, files),
    )
}

/// No two files map to the same remote key.
pub open spec fn distinct_keys(prefix: Seq<char>, files: Seq<LocalFile>) -> bool {
    forall|i: int, j: int|
        0 <= i < j < files.len() ==> key_of(prefix, files[i].rel_path@) != key_of(
            prefix,
            files[j].rel_path@,
        )
}

/// Make the remote namespace under `prefix` an exact copy of the local
/// tree `files`: wipe the prefix, upload every file under its derived key,
/// and report how many upload tasks were attempted.
#[verifier::loop_isolation(false)]
pub fn sync_dir(store: &mut MimeGuessAccessor, prefix: &str, files: Vec<LocalFile>) -> (r:
    MirrorResult)
    requires
        old(store).wf(),
    ensures
        final(store).wf(),
        r.tasks_attempted == files@.len(),
        final(store)@ =~= mirror_map(old(store)@, prefix@, files@),
        final(store).key_order() =~= applied_order(
            order_outside(old(store).key_order(), prefix@),
            mirror_tasks(prefix@, files@),
        ),
{
    let ghost all = files@;
    store.remove_all(prefix);
    let mut set = ConcurrentUploadTasks::new();
    let mut files = files;
    let n = files.len();
    let mut i: usize = 0;
    while i < n
        invariant
            i <= n,
            n == all.len(),
            files@ =~= all.subrange(i as int, n as int),
            set@ =~= mirror_tasks(prefix@, all.take(i as int)),
        decreases n - i,
    {
        let f = files.remove(0);
        let key = object_key(prefix, f.rel_path.as_str());
        set.push_single_file(f.data, key);
        i = i + 1;
        proof {
            let ii = i as int;
            assert(f == all[ii - 1]);
            assert(all.take(ii).drop_last() =~= all.take(ii - 1));
            assert(mirror_tasks(prefix@, all.take(ii)) =~= mirror_tasks(
                prefix@,
                all.take(ii - 1),
            ).push(
                TaskV {
                    key: key_of(prefix@, all[ii - 1].rel_path@),
                    data: all[ii - 1].data@,
                    content_type: None,
                },
            ));
            assert(set@ =~= mirror_tasks(prefix@, all.take(ii)));
        }
    }
    assert(all.take(n as int) =~= all);
    let outcomes = set.run_all(store);
    let r = set.join(&outcomes);
    match r {
        Ok(m) => m,
        Err(_) => {
            proof {
                assert(false);
            }
            MirrorResult { tasks_attempted: 0 }
        },
    }
}

proof fn lemma_applied_untouched(m: Map<Seq<char>, ObjectV>, ts: Seq<TaskV>, k: Seq<char>)
    requires
        forall|i: int| 0 <= i < ts.len() ==> ts[i].key != k,
    ensures
        applied(m, ts).contains_key(k) == m.contains_key(k),
        m.contains_key(k) ==> applied(m, ts)[k] == m[k],
    decreases ts.len(),
{
    if ts.len() > 0 {
        assert(forall|i: int|
            0 <= i < ts.drop_last().len() ==> ts.drop_last()[i] == ts[i]);
        lemma_applied_untouched(m, ts.drop_last(), k);
        assert(ts.last().key != k);
    }
}

proof fn lemma_applied_task(m: Map<Seq<char>, ObjectV>, ts: Seq<TaskV>, j: int)
    requires
        0 <= j < ts.len(),
        forall|i: int| j < i < ts.len() ==> ts[i].key != ts[j].key,
    ensures
        applied(m, ts).contains_key(ts[j].key),
        applied(m, ts)[ts[j].key] == (ObjectV {
            data: ts[j].data,
            content_type: resolved_mime(ts[j].key, ts[j].content_type),
        }),
    decreases ts.len(),
{
    if j < ts.len() - 1 {
        assert(ts.drop_last()[j] == ts[j]);
        assert(forall|i: int|
            j < i < ts.drop_last().len() ==> ts.drop_last()[i] == ts[i]);
        lemma_applied_task(m, ts.drop_last(), j);
        assert(ts.last().key != ts[j].key);
    }
}

proof fn lemma_applied_dom(m: Map<Seq<char>, ObjectV>, ts: Seq<TaskV>, k: Seq<char>)
    ensures
        applied(m, ts).contains_key(k) <==> m.contains_key(k) || (exists|i: int|
            0 <= i < ts.len() && ts[i].key == k),
    decreases ts.len(),
{
    if ts.len() > 0 {
        lemma_applied_dom(m, ts.drop_last(), k);
        if ts.last().key == k {
            assert(ts[ts.len() - 1].key == k);
        } else {
            if exists|i: int| 0 <= i < ts.drop_last().len() && ts.drop_last()[i].key == k {
                let i = choose|i: int|
                    0 <= i < ts.drop_last().len() && ts.drop_last()[i].key == k;
                assert(ts[i].key == k);
            }
            if exists|i: int| 0 <= i < ts.len() && ts[i].key == k {
                let i = choose|i: int| 0 <= i < ts.len() && ts[i].key == k;
                assert(ts.drop_last()[i].key == k);
            }
        }
    }
}

/// Every key a mirror writes lies under its prefix.
proof fn lemma_mirror_tasks_prefixed(prefix: Seq<char>, files: Seq<LocalFile>)
    ensures
        forall|i: int|
            0 <= i < files.len() ==> has_prefix(
                #[trigger] mirror_tasks(prefix, files)[i].key,
                prefix,
            ),
{
    assert forall|i: int| 0 <= i < files.len() implies has_prefix(
        mirror_tasks(prefix, files)[i].key,
        prefix,
    ) by {
        lemma_key_of_has_prefix(prefix, files[i].rel_path@);
    }
}

/// Mirror completeness: over any prior namespace, a mirror leaves under
/// its prefix exactly the derived keys of its files — one object per file
/// when the keys are distinct — and each object holds its file's bytes
/// with the content type guessed from its key.
pub proof fn lemma_mirror_completeness(
    pre: Map<Seq<char>, ObjectV>,
    prefix: Seq<char>,
    files: Seq<LocalFile>,
)
    requires
        distinct_keys(prefix, files),
    ensures
        mirror_map(pre, prefix, files).dom().filter(|k: Seq<char>| has_prefix(k, prefix))
            =~= mirror_keys(prefix, files),
        mirror_keys(prefix, files).len() == files.len(),
        forall|i: int|
            0 <= i < files.len() ==> mirror_map(pre, prefix, files)[key_of(
                prefix,
                #[trigger] files[i].rel_path@,
            )] == (ObjectV {
                data: files[i].data@,
                content_type: mime_of(key_of(prefix, files[i].rel_path@)),
            }),
{
    let base = pre.remove_keys(pre.dom().filter(|k: Seq<char>| has_prefix(k, prefix)));
    let ts = mirror_tasks(prefix, files);
    let keyseq = files.map_values(|f: LocalFile| key_of(prefix, f.rel_path@));
    lemma_mirror_tasks_prefixed(prefix, files);

    assert forall|k: Seq<char>|
        mirror_map(pre, prefix, files).dom().filter(
            |k2: Seq<char>| has_prefix(k2, prefix),
        ).contains(k) <==> mirror_keys(prefix, files).contains(k) by {
        lemma_applied_dom(base, ts, k);
        if mirror_keys(prefix, files).contains(k) {
            let i = choose|i: int| 0 <= i < keyseq.len() && keyseq[i] == k;
            assert(ts[i].key == k);
            lemma_key_of_has_prefix(prefix, files[i].rel_path@);
        }
        if base.contains_key(k) && has_prefix(k, prefix) {
            assert(pre.dom().filter(|k2: Seq<char>| has_prefix(k2, prefix)).contains(k));
            assert(false);
        }
        if exists|i: int| 0 <= i < ts.len() && ts[i].key == k {
            let i = choose|i: int| 0 <= i < ts.len() && ts[i].key == k;
            assert(keyseq[i] == k);
            assert(mirror_keys(prefix, files).contains(k));
        }
    }
    assert(mirror_map(pre, prefix, files).dom().filter(|k: Seq<char>| has_prefix(k, prefix))
        =~= mirror_keys(prefix, files));

    assert(keyseq.no_duplicates());
    keyseq.unique_seq_to_set();

    assert forall|i: int| 0 <= i < files.len() implies mirror_map(pre, prefix, files)[key_of(
        prefix,
        #[trigger] files[i].rel_path@,
    )] == (ObjectV {
        data: files[i].data@,
        content_type: mime_of(key_of(prefix, files[i].rel_path@)),
    }) by {
        assert(forall|i2: int| i < i2 < ts.len() ==> ts[i2].key != ts[i].key);
        lemma_applied_task(base, ts, i);
        assert(resolved_mime(ts[i].key, None) == mime_of(ts[i].key));
    }
}

/// What a listing shows after a mirror over keys that all lie outside the
/// prefix: those keys in their old order, then the mirrored files' keys
/// in enumeration order.
pub proof fn lemma_mirror_listing(ko: Seq<Seq<char>>, prefix: Seq<char>, files: Seq<LocalFile>)
    requires
        distinct_keys(prefix, files),
        forall|i: int| 0 <= i < ko.len() ==> !has_prefix(#[trigger] ko[i], prefix),
    ensures
        applied_order(ko, mirror_tasks(prefix, files)) =~= ko + files.map_values(
            |f: LocalFile| key_of(prefix, f.rel_path@),
        ),
    decreases files.len(),
{
    let ts = mirror_tasks(prefix, files);
    let keyseq = files.map_values(|f: LocalFile| key_of(prefix, f.rel_path@));
    if files.len() == 0 {
        assert(ts =~= Seq::<TaskV>::empty());
        assert(ko + keyseq =~= ko);
    } else {
        let fdl = files.drop_last();
        assert(mirror_tasks(prefix, fdl) =~= ts.drop_last());
        assert(forall|i: int, j: int|
            0 <= i < j < fdl.len() ==> key_of(prefix, fdl[i].rel_path@) != key_of(
                prefix,
                fdl[j].rel_path@,
            ));
        lemma_mirror_listing(ko, prefix, fdl);
        let prev = applied_order(ko, ts.drop_last());
        let prevkeys = fdl.map_values(|f: LocalFile| key_of(prefix, f.rel_path@));
        assert(prev =~= ko + prevkeys);
        let lastkey = key_of(prefix, files.last().rel_path@);
        assert(ts.last().key == lastkey);
        assert forall|x: int| 0 <= x < prev.len() implies prev[x] != lastkey by {
            if x < ko.len() {
                lemma_key_of_has_prefix(prefix, files.last().rel_path@);
            } else {
                assert(prev[x] == key_of(prefix, files[x - ko.len()].rel_path@));
                assert(key_of(prefix, files[x - ko.len()].rel_path@) != key_of(
                    prefix,
                    files[files.len() - 1].rel_path@,
                ));
            }
        }
        prev.index_of_first_ensures(lastkey);
        if prev.contains(lastkey) {
            let x = choose|x: int| 0 <= x < prev.len() && prev[x] == lastkey;
            assert(false);
        }
        assert(prev.remove_value(lastkey) == prev);
        assert(applied_order(ko, ts) =~= prev.push(lastkey));
        assert(prev.push(lastkey) =~= ko + keyseq);
    }
}

/// The vacuous mirror: mirroring an empty tree merely wipes the prefix —
/// no key under the prefix survives, and every object outside the prefix
/// is untouched.
pub proof fn lemma_mirror_empty(pre: Map<Seq<char>, ObjectV>, prefix: Seq<char>, files: Seq<
    LocalFile,
>)
    requires
        files.len() == 0,
    ensures
        forall|k: Seq<char>|
            has_prefix(k, prefix) ==> !(#[trigger] mirror_map(pre, prefix, files).contains_key(
                k,
            )),
        forall|k: Seq<char>|
            !has_prefix(k, prefix) ==> ((#[trigger] mirror_map(pre, prefix, files).contains_key(
                k,
            )) <==> pre.contains_key(k)),
        forall|k: Seq<char>|
            !has_prefix(k, prefix) && pre.contains_key(k) ==> mirror_map(pre, prefix, files)[k]
                == pre[k],
{
    let base = pre.remove_keys(pre.dom().filter(|k: Seq<char>| has_prefix(k, prefix)));
    assert(mirror_tasks(prefix, files) =~= Seq::<TaskV>::empty());
    assert(mirror_map(pre, prefix, files) == base);
    assert forall|k: Seq<char>| has_prefix(k, prefix) implies !(mirror_map(
        pre,
        prefix,
        files,
    ).contains_key(k)) by {
        if base.contains_key(k) {
            assert(pre.dom().filter(|k2: Seq<char>| has_prefix(k2, prefix)).contains(k));
        }
    }
}

/// The destructive precondition honoured: any object under the prefix
/// whose key is not one of the derived keys is gone after the mirror,
/// whatever the namespace held before.
pub proof fn lemma_mirror_wipes_unrelated(
    pre: Map<Seq<char>, ObjectV>,
    prefix: Seq<char>,
    files: Seq<LocalFile>,
    k: Seq<char>,
)
    requires
        has_prefix(k, prefix),
        !mirror_keys(prefix, files).contains(k),
    ensures
        !mirror_map(pre, prefix, files).contains_key(k),
{
    let base = pre.remove_keys(pre.dom().filter(|k2: Seq<char>| has_prefix(k2, prefix)));
    let ts = mirror_tasks(prefix, files);
    let keyseq = files.map_values(|f: LocalFile| key_of(prefix, f.rel_path@));
    assert forall|i: int| 0 <= i < ts.len() implies ts[i].key != k by {
        if ts[i].key == k {
            assert(keyseq[i] == k);
            assert(mirror_keys(prefix, files).contains(k));
        }
    }
    lemma_applied_untouched(base, ts, k);
    if base.contains_key(k) {
        assert(pre.dom().filter(|k2: Seq<char>| has_prefix(k2, prefix)).contains(k));
    }
}

/// Idempotent re-mirror: running the same mirror twice in succession
/// leaves a namespace identical to one run.
pub proof fn lemma_mirror_idempotent(
    pre: Map<Seq<char>, ObjectV>,
    prefix: Seq<char>,
    files: Seq<LocalFile>,
)
    ensures
        mirror_map(mirror_map(pre, prefix, files), prefix, files) =~= mirror_map(
            pre,
            prefix,
            files,
        ),
{
    let base1 = pre.remove_keys(pre.dom().filter(|k: Seq<char>| has_prefix(k, prefix)));
    let once = mirror_map(pre, prefix, files);
    let base2 = once.remove_keys(once.dom().filter(|k: Seq<char>| has_prefix(k, prefix)));
    let ts = mirror_tasks(prefix, files);
    lemma_mirror_tasks_prefixed(prefix, files);

    assert forall|k: Seq<char>| #[trigger] base2.contains_key(k) <==> base1.contains_key(k) by {
        lemma_applied_dom(base1, ts, k);
        if base2.contains_key(k) {
            assert(once.contains_key(k));
            assert(!has_prefix(k, prefix)) by {
                if has_prefix(k, prefix) {
                    assert(once.dom().filter(|k2: Seq<char>| has_prefix(k2, prefix)).contains(
                        k,
                    ));
                }
            }
            if exists|i: int| 0 <= i < ts.len() && ts[i].key == k {
                let i = choose|i: int| 0 <= i < ts.len() && ts[i].key == k;
                assert(has_prefix(ts[i].key, prefix));
                assert(false);
            }
            assert(base1.contains_key(k));
        }
        if base1.contains_key(k) {
            assert(!pre.dom().filter(|k2: Seq<char>| has_prefix(k2, prefix)).contains(k));
            assert(!has_prefix(k, prefix));
            assert(once.contains_key(k));
            assert(!once.dom().filter(|k2: Seq<char>| has_prefix(k2, prefix)).contains(k));
            assert(base2.contains_key(k));
        }
    }
    assert forall|k: Seq<char>| #[trigger] base2.contains_key(k) implies base2[k] == base1[k] by {
        assert(!has_prefix(k, prefix)) by {
            if has_prefix(k, prefix) {
                assert(once.dom().filter(|k2: Seq<char>| has_prefix(k2, prefix)).contains(k));
            }
        }
        assert forall|i: int| 0 <= i < ts.len() implies ts[i].key != k by {
            assert(has_prefix(ts[i].key, prefix));
        }
        lemma_applied_untouched(base1, ts, k);
        assert(once[k] == base1[k]);
        assert(base2[k] == once[k]);
    }
    assert(base2 =~= base1);
    assert(mirror_map(once, prefix, files) == applied(base2, ts));
    assert(applied(base2, ts) == applied(base1, ts));
}

} // verus!
