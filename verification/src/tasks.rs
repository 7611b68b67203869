//! The upload task set: a batch of single-file upload tasks recorded in
//! submission order, executed against a storage accessor, and joined into a
//! single result — the count of tasks attempted when all succeed, or the
//! first failure in submission order once every task has completed.

use vstd::prelude::*;
use crate::content_type::resolved_mime;
use crate::keys::normalize_key;
use crate::keys::normalized;
use crate::mime_layer::MimeGuessAccessor;
use crate::storage::order_after_write;
use crate::storage::ObjectV;

verus! {

/// A remote-write failure, as the storage backend described it.
pub struct StorageError {
    pub message: String,
}

impl StorageError {
    /// A copy of this failure description.
    pub fn duplicate(&self) -> (r: StorageError)
        ensures
            r == *self,
    {
        StorageError { message: self.message.clone() }
    }
}

/// The first failure of a joined batch: which task failed, its key, and the
/// backend's error.
pub struct UploadError {
    pub index: usize,
    pub key: String,
    pub error: StorageError,
}

/// What a successful mirror reports: how many upload tasks it attempted.
pub struct MirrorResult {
    pub tasks_attempted: usize,
}

/// A regular file found under the local root: its root-relative path and
/// its bytes.
pub struct LocalFile {
    pub rel_path: String,
    pub data: Vec<u8>,
}

/// One single-file upload task: immutable once created, consumed by exactly
/// one upload attempt.
pub struct UploadTask {
    pub key: String,
    pub data: Vec<u8>,
    pub content_type: Option<String>,
}

/// An upload task as contracts see it.
pub ghost struct TaskV {
    pub key: Seq<char>,
    pub data: Seq<u8>,
    pub content_type: Option<Seq<char>>,
}

impl UploadTask {
    /// The task, as contracts see it.
    pub open spec fn task_view(self) -> TaskV {
        TaskV { key: self.key@, data: self.data@, content_type: self.content_type.deep_view() }
    }
}

/// The storage map after the tasks of `ts` are written to `m` in order,
/// each with its content type filled from its key's extension when the task
/// carries none.
pub open spec fn applied(m: Map<Seq<char>, ObjectV>, ts: Seq<TaskV>) -> Map<Seq<char>, ObjectV>
    decreases ts.len(),
{
    if ts.len() == 0 {
        m
    } else {
        applied(m, ts.drop_last()).insert(
            ts.last().key,
            ObjectV {
                data: ts.last().data,
                content_type: resolved_mime(ts.last().key, ts.last().content_type),
            },
        )
    }
}

/// The key listing order after the tasks of `ts` are written over the
/// order `ko`: each write moves its key to the end of the listing.
pub open spec fn applied_order(ko: Seq<Seq<char>>, ts: Seq<TaskV>) -> Seq<Seq<char>>
    decreases ts.len(),
{
    if ts.len() == 0 {
        ko
    } else {
        order_after_write(applied_order(ko, ts.drop_last()), ts.last().key)
    }
}

fn clone_bytes(v: &Vec<u8>) -> (r: Vec<u8>)
    ensures
        r@ == v@,
{
    let r = v.clone();
    proof {
        assert forall|i: int| 0 <= i < r@.len() implies r@[i] == v@[i] by {
            assert(vstd::prelude::cloned::<u8>(v@[i], r@[i]));
        }
        assert(r@ =~= v@);
    }
    r
}

fn clone_opt_string(v: &Option<String>) -> (r: Option<String>)
    ensures
        r == *v,
{
    match v {
        Some(s) => Some(s.clone()),
        None => None,
    }
}

/// The in-flight upload batch of one mirror operation: created empty, grown
/// one task per file, and consumed by a single join.
pub struct ConcurrentUploadTasks {
    tasks: Vec<UploadTask>,
}

impl View for ConcurrentUploadTasks {
    type V = Seq<TaskV>;

    closed spec fn view(&self) -> Seq<TaskV> {
        self.tasks@.map_values(|t: UploadTask| t.task_view())
    }
}

impl ConcurrentUploadTasks {
    /// An empty batch.
    pub fn new() -> (r: ConcurrentUploadTasks)
        ensures
            r@ =~= Seq::<TaskV>::empty(),
    {
        ConcurrentUploadTasks { tasks: Vec::new() }
    }

    /// How many tasks the batch holds.
    pub fn len(&self) -> (r: usize)
        ensures
            r == self@.len(),
    {
        self.tasks.len()
    }

    /// The recorded tasks, in submission order.
    pub fn tasks(&self) -> (r: &Vec<UploadTask>)
        ensures
            r@.len() == self@.len(),
            forall|i: int| 0 <= i < r@.len() ==> r@[i].task_view() == self@[i],
    {
        &self.tasks
    }

    /// Record one upload task that stores `data` under the key `target`.
    pub fn push_single_file(&mut self, data: Vec<u8>, target: String)
        ensures
            final(self)@ =~= old(self)@.push(
                TaskV { key: target@, data: data@, content_type: None },
            ),
    {
        let entry = UploadTask { key: target, data, content_type: None };
        self.tasks.push(entry);
        assert(final(self)@ =~= old(self)@.push(entry.task_view()));
    }

    /// Record one upload task for a local path, deriving the key by
    /// normalizing the path's separators to forward slashes.
    pub fn push_path(&mut self, data: Vec<u8>, path: &str)
        ensures
            final(self)@ =~= old(self)@.push(
                TaskV { key: normalized(path@), data: data@, content_type: None },
            ),
    {
        let target = normalize_key(path);
        self.push_single_file(data, target);
    }

    /// Record one upload task whose key is the local path itself.
    pub fn push_str(&mut self, data: Vec<u8>, path: &str)
        ensures
            final(self)@ =~= old(self)@.push(
                TaskV { key: path@, data: data@, content_type: None },
            ),
    {
        let target = String::from_str(path);
        self.push_single_file(data, target);
    }

    /// Record one upload task per file of a batch, in order, each keyed by
    /// the file's own path.
    #[verifier::loop_isolation(false)]
    pub fn push_str_seq(&mut self, files: Vec<LocalFile>)
        ensures
            final(self)@ =~= old(self)@ + files@.map_values(
                |f: LocalFile| TaskV { key: f.rel_path@, data: f.data@, content_type: None },
            ),
    {
        let ghost all = files@;
        let mut files = files;
        let ghost target = all.map_values(
            |f: LocalFile| TaskV { key: f.rel_path@, data: f.data@, content_type: None },
        );
        let mut i: usize = 0;
        let n = files.len();
        while i < n
            invariant
                i <= n,
                n == all.len(),
                files@ =~= all,
                self@ =~= old(self)@ + target.take(i as int),
            decreases n - i,
        {
            let f = &files[i];
            let data = clone_bytes(&f.data);
            let path = f.rel_path.clone();
            let ghost pre = self@;
            self.push_single_file(data, path);
            i = i + 1;
            proof {
                let ii = i as int;
                assert(target.take(ii) =~= target.take(ii - 1).push(target[ii - 1]));
                assert(self@ =~= pre.push(target[ii - 1]));
                Seq::push_distributes_over_add(old(self)@, target.take(ii - 1), target[ii - 1]);
                assert(self@ =~= old(self)@ + target.take(ii));
            }
        }
        assert(target.take(n as int) =~= target);
    }

    /// Write every recorded task to the accessor, in submission order, and
    /// report each task's outcome. Against the in-memory accessor every
    /// write succeeds.
    pub fn run_all(&self, store: &mut MimeGuessAccessor) -> (r: Vec<Result<(), StorageError>>)
        requires
            old(store).wf(),
        ensures
            final(store).wf(),
            final(store)@ =~= applied(old(store)@, self@),
            final(store).key_order() =~= applied_order(old(store).key_order(), self@),
            r@.len() == self@.len(),
            forall|i: int| 0 <= i < r@.len() ==> r@[i] is Ok,
    {
        let n = self.tasks.len();
        let mut out: Vec<Result<(), StorageError>> = Vec::new();
        let mut i: usize = 0;
        while i < n
            invariant
                i <= n,
                n == self@.len(),
                n == self.tasks@.len(),
                store.wf(),
                store@ =~= applied(old(store)@, self@.take(i as int)),
                store.key_order() =~= applied_order(old(store).key_order(), self@.take(i as int)),
                out@.len() == i,
                forall|j: int| 0 <= j < out@.len() ==> out@[j] is Ok,
            decreases n - i,
        {
            let t = &self.tasks[i];
            let data = clone_bytes(&t.data);
            let ct = clone_opt_string(&t.content_type);
            store.write(t.key.as_str(), data, ct);
            out.push(Ok(()));
            i = i + 1;
            proof {
                assert(self@.take(i as int).drop_last() =~= self@.take(i - 1));
                assert(self@.take(i as int).last() == self@[i - 1]);
                assert(self@[i - 1] == self.tasks@[i - 1].task_view());
                assert(store@ =~= applied(old(store)@, self@.take(i as int)));
                assert(store.key_order() =~= applied_order(
                    old(store).key_order(),
                    self@.take(i as int),
                ));
            }
        }
        assert(self@.take(n as int) =~= self@);
        out
    }

    /// Join the batch against the outcomes of its tasks, one per task in
    /// submission order: the count of tasks attempted when every task
    /// succeeded, otherwise the first failure in submission order. The
    /// caller hands in one terminal outcome per task, so nothing is
    /// reported before every task has completed.
    pub fn join(self, outcomes: &Vec<Result<(), StorageError>>) -> (r: Result<
        MirrorResult,
        UploadError,
    >)
        requires
            outcomes@.len() == self@.len(),
        ensures
            (r is Ok) <==> (forall|i: int| 0 <= i < outcomes@.len() ==> outcomes@[i] is Ok),
            r matches Ok(m) ==> m.tasks_attempted == self@.len(),
            r matches Err(e) ==> {
                &&& (e.index as int) < outcomes@.len()
                &&& outcomes@[e.index as int] == Result::<(), StorageError>::Err(e.error)
                &&& forall|j: int| 0 <= j < e.index ==> outcomes@[j] is Ok
                &&& e.key@ == self@[e.index as int].key
            },
    {
        let n = self.tasks.len();
        let mut i: usize = 0;
        while i < n
            invariant
                i <= n,
                n == self@.len(),
                n == self.tasks@.len(),
                n == outcomes@.len(),
                forall|j: int| 0 <= j < i ==> outcomes@[j] is Ok,
            decreases n - i,
        {
            match &outcomes[i] {
                Ok(_) => {
                    i = i + 1;
                },
                Err(e) => {
                    let err = e.duplicate();
                    let key = self.tasks[i].key.clone();
                    return Err(UploadError { index: i, key, error: err });
                },
            }
        }
        Ok(MirrorResult { tasks_attempted: n })
    }
}

} // verus!
