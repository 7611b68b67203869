//! An in-memory object-storage backend with the interface the mirror engine
//! consumes: idempotent keyed writes, a prefix wipe, and key listing. Its
//! view is the map from keys to stored objects; a companion sequence view
//! records insertion order, which listing follows.

use vstd::prelude::*;
use crate::keys::has_prefix;
use crate::keys::starts_with;
use crate::keys::str_eq;

verus! {

/// One stored object, as contracts see it: its bytes and the content type
/// recorded for it, if any.
pub ghost struct ObjectV {
    pub data: Seq<u8>,
    pub content_type: Option<Seq<char>>,
}

/// One object held by the in-memory backend.
pub struct StoredObject {
    pub key: String,
    pub data: Vec<u8>,
    pub content_type: Option<String>,
}

impl StoredObject {
    /// The entry, as contracts see it: its bytes and its content type.
    pub open spec fn obj_view(self) -> ObjectV {
        ObjectV { data: self.data@, content_type: self.content_type.deep_view() }
    }
}

/// The key-to-object map held by a sequence of entries, later entries
/// overriding earlier ones with the same key.
pub open spec fn map_of(s: Seq<StoredObject>) -> Map<Seq<char>, ObjectV>
    decreases s.len(),
{
    if s.len() == 0 {
        Map::empty()
    } else {
        map_of(s.drop_last()).insert(s.last().key@, s.last().obj_view())
    }
}

/// The keys of a sequence of entries, in order.
pub open spec fn keys_of(s: Seq<StoredObject>) -> Seq<Seq<char>> {
    s.map_values(|o: StoredObject| o.key@)
}

/// The key listing order after one write: the written key moves to the
/// end of the listing, and every other key keeps its place.
pub open spec fn order_after_write(ko: Seq<Seq<char>>, key: Seq<char>) -> Seq<Seq<char>> {
    ko.remove_value(key).push(key)
}

/// The keys of `ko` that lie under `prefix`, in their order.
pub open spec fn order_under(ko: Seq<Seq<char>>, prefix: Seq<char>) -> Seq<Seq<char>>
    decreases ko.len(),
{
    if ko.len() == 0 {
        Seq::empty()
    } else if has_prefix(ko.last(), prefix) {
        order_under(ko.drop_last(), prefix).push(ko.last())
    } else {
        order_under(ko.drop_last(), prefix)
    }
}

/// The keys of `ko` that do not lie under `prefix`, in their order.
pub open spec fn order_outside(ko: Seq<Seq<char>>, prefix: Seq<char>) -> Seq<Seq<char>>
    decreases ko.len(),
{
    if ko.len() == 0 {
        Seq::empty()
    } else if has_prefix(ko.last(), prefix) {
        order_outside(ko.drop_last(), prefix)
    } else {
        order_outside(ko.drop_last(), prefix).push(ko.last())
    }
}

/// Removing a key under the prefix leaves the keys outside it unchanged.
proof fn lemma_order_outside_remove(ko: Seq<Seq<char>>, j: int, prefix: Seq<char>)
    requires
        0 <= j < ko.len(),
        has_prefix(ko[j], prefix),
    ensures
        order_outside(ko.remove(j), prefix) =~= order_outside(ko, prefix),
    decreases ko.len(),
{
    if j == ko.len() - 1 {
        assert(ko.remove(j) =~= ko.drop_last());
    } else {
        assert(ko.remove(j).drop_last() =~= ko.drop_last().remove(j));
        assert(ko.remove(j).last() == ko.last());
        assert(ko.remove(j).len() > 0);
        lemma_order_outside_remove(ko.drop_last(), j, prefix);
    }
}

/// A listing without keys under the prefix is exactly its own keys
/// outside the prefix.
proof fn lemma_order_outside_all(ko: Seq<Seq<char>>, prefix: Seq<char>)
    requires
        forall|i: int| 0 <= i < ko.len() ==> !has_prefix(ko[i], prefix),
    ensures
        order_outside(ko, prefix) =~= ko,
    decreases ko.len(),
{
    if ko.len() > 0 {
        lemma_order_outside_all(ko.drop_last(), prefix);
    }
}

/// No two entries share a key.
pub open spec fn unique_keys(s: Seq<StoredObject>) -> bool {
    forall|i: int, j: int| 0 <= i < j < s.len() ==> s[i].key@ != s[j].key@
}

proof fn lemma_map_of_contains(s: Seq<StoredObject>, k: Seq<char>)
    ensures
        map_of(s).contains_key(k) <==> exists|i: int| 0 <= i < s.len() && s[i].key@ == k,
    decreases s.len(),
{
    if s.len() > 0 {
        lemma_map_of_contains(s.drop_last(), k);
        if s.last().key@ == k {
            assert(s[s.len() - 1].key@ == k);
        } else {
            if map_of(s).contains_key(k) {
                let i = choose|i: int| 0 <= i < s.drop_last().len() && s.drop_last()[i].key@ == k;
                assert(s[i].key@ == k);
            }
            if exists|i: int| 0 <= i < s.len() && s[i].key@ == k {
                let i = choose|i: int| 0 <= i < s.len() && s[i].key@ == k;
                assert(s.drop_last()[i].key@ == k);
            }
        }
    }
}

proof fn lemma_map_of_at(s: Seq<StoredObject>, j: int)
    requires
        unique_keys(s),
        0 <= j < s.len(),
    ensures
        map_of(s).contains_key(s[j].key@),
        map_of(s)[s[j].key@] == s[j].obj_view(),
    decreases s.len(),
{
    if j < s.len() - 1 {
        assert(s[j].key@ != s.last().key@);
        assert(s.drop_last()[j] == s[j]);
        lemma_map_of_at(s.drop_last(), j);
    }
}

proof fn lemma_map_of_finite(s: Seq<StoredObject>)
    ensures
        map_of(s).dom().finite(),
    decreases s.len(),
{
    if s.len() > 0 {
        lemma_map_of_finite(s.drop_last());
    }
}

proof fn lemma_map_of_remove(s: Seq<StoredObject>, j: int)
    requires
        unique_keys(s),
        0 <= j < s.len(),
    ensures
        map_of(s.remove(j)) =~= map_of(s).remove(s[j].key@),
    decreases s.len(),
{
    let k = s[j].key@;
    if j == s.len() - 1 {
        assert(s.remove(j) =~= s.drop_last());
        lemma_map_of_contains(s.drop_last(), k);
        assert(forall|i: int| 0 <= i < s.drop_last().len() ==> s.drop_last()[i].key@ != k);
        assert(!map_of(s.drop_last()).contains_key(k));
        assert(map_of(s) == map_of(s.drop_last()).insert(k, s.last().obj_view()));
        assert(map_of(s.remove(j)) =~= map_of(s).remove(k));
    } else {
        let dl = s.drop_last();
        assert(s.remove(j).drop_last() =~= dl.remove(j));
        assert(s.remove(j).last() == s.last());
        assert(s.remove(j).len() > 0);
        assert(map_of(s.remove(j)) == map_of(s.remove(j).drop_last()).insert(
            s.remove(j).last().key@,
            s.remove(j).last().obj_view(),
        ));
        assert(unique_keys(dl));
        assert(dl[j] == s[j]);
        lemma_map_of_remove(dl, j);
        assert(s.last().key@ != k);
        assert(map_of(s.remove(j)) =~= map_of(s).remove(k));
    }
}

/// The in-memory storage backend: a remote object namespace reduced to a
/// value, with the write, wipe and listing operations the engine relies on.
pub struct MemStorage {
    objects: Vec<StoredObject>,
}

impl View for MemStorage {
    type V = Map<Seq<char>, ObjectV>;

    closed spec fn view(&self) -> Map<Seq<char>, ObjectV> {
        map_of(self.objects@)
    }
}

impl MemStorage {
    /// No two stored entries share a key.
    pub closed spec fn wf(&self) -> bool {
        unique_keys(self.objects@)
    }

    /// The stored keys in insertion order.
    pub closed spec fn key_order(&self) -> Seq<Seq<char>> {
        keys_of(self.objects@)
    }

    /// A storage namespace holds finitely many objects.
    pub proof fn lemma_dom_finite(&self)
        ensures
            self@.dom().finite(),
    {
        lemma_map_of_finite(self.objects@);
    }

    /// A key is stored exactly when it appears in the insertion order.
    pub proof fn lemma_contains_in_order(&self, k: Seq<char>)
        ensures
            self@.contains_key(k) <==> self.key_order().contains(k),
    {
        lemma_map_of_contains(self.objects@, k);
        if self@.contains_key(k) {
            let i = choose|i: int|
                0 <= i < self.objects@.len() && self.objects@[i].key@ == k;
            assert(self.key_order()[i] == k);
        }
        if self.key_order().contains(k) {
            let i = choose|i: int| 0 <= i < self.key_order().len() && self.key_order()[i] == k;
            assert(self.objects@[i].key@ == k);
        }
    }

    /// An empty namespace.
    pub fn new() -> (r: MemStorage)
        ensures
            r.wf(),
            r@ =~= Map::<Seq<char>, ObjectV>::empty(),
            r.key_order() =~= Seq::<Seq<char>>::empty(),
    {
        MemStorage { objects: Vec::new() }
    }

    fn find_index(&self, key: &str) -> (r: Option<usize>)
        ensures
            r matches Some(j) ==> j < self.objects@.len() && self.objects@[j as int].key@
                == key@ && forall|i: int| 0 <= i < j ==> self.objects@[i].key@ != key@,
            r is None ==> forall|i: int|
                0 <= i < self.objects@.len() ==> self.objects@[i].key@ != key@,
    {
        let n = self.objects.len();
        let mut i: usize = 0;
        while i < n
            invariant
                i <= n,
                n == self.objects@.len(),
                forall|j: int| 0 <= j < i ==> self.objects@[j].key@ != key@,
            decreases n - i,
        {
            if str_eq(self.objects[i].key.as_str(), key) {
                return Some(i);
            }
            i = i + 1;
        }
        None
    }

    /// Store `data` under `key` with the given content type, replacing any
    /// object previously stored under that key.
    #[verifier::rlimit(60)]
    pub fn write(&mut self, key: &str, data: Vec<u8>, content_type: Option<String>)
        requires
            old(self).wf(),
        ensures
            final(self).wf(),
            final(self)@ =~= old(self)@.insert(
                key@,
                ObjectV { data: data@, content_type: content_type.deep_view() },
            ),
            final(self).key_order() =~= order_after_write(old(self).key_order(), key@),
    {
        proof {
            lemma_map_of_contains(self.objects@, key@);
        }
        let entry = StoredObject { key: key.to_owned(), data, content_type };
        match self.find_index(key) {
            Some(j) => {
                let ghost pre = self.objects@;
                proof {
                    lemma_map_of_remove(pre, j as int);
                    keys_of(pre).index_of_first_ensures(key@);
                    assert(keys_of(pre)[j as int] == key@);
                    assert(keys_of(pre).index_of_first(key@) == Some(j as int)) by {
                        let fi = keys_of(pre).index_of_first(key@).unwrap();
                        assert(keys_of(pre).contains(key@));
                        assert(fi <= j as int);
                        assert(j as int <= fi);
                    }
                    assert(keys_of(pre).remove_value(key@) == keys_of(pre).remove(j as int));
                }
                self.objects.remove(j);
                assert(forall|i: int|
                    0 <= i < self.objects@.len() ==> self.objects@[i].key@ != key@);
                let ghost mid = self.objects@;
                proof {
                    assert(keys_of(mid) =~= keys_of(pre).remove(j as int));
                }
                self.objects.push(entry);
                assert(self.objects@.drop_last() =~= mid);
                assert(self@ =~= map_of(mid).insert(key@, entry.obj_view()));
                assert(self@ =~= old(self)@.insert(key@, entry.obj_view()));
                assert(self.key_order() =~= keys_of(mid).push(key@));
            },
            None => {
                let ghost pre = self.objects@;
                proof {
                    keys_of(pre).index_of_first_ensures(key@);
                    if keys_of(pre).contains(key@) {
                        let i = choose|i: int|
                            0 <= i < keys_of(pre).len() && keys_of(pre)[i] == key@;
                        assert(pre[i].key@ == key@);
                    }
                    assert(keys_of(pre).remove_value(key@) == keys_of(pre));
                }
                self.objects.push(entry);
                assert(self.objects@.drop_last() =~= pre);
                assert(self@ =~= old(self)@.insert(key@, entry.obj_view()));
                assert(self.key_order() =~= old(self).key_order().push(key@));
            },
        }
    }

    /// The object stored under `key`, if any.
    pub fn stat(&self, key: &str) -> (r: Option<&StoredObject>)
        requires
            self.wf(),
        ensures
            r matches Some(o) ==> self@.contains_key(key@) && o.key@ == key@ && o.obj_view()
                == self@[key@],
            r is None <==> !self@.contains_key(key@),
    {
        proof {
            lemma_map_of_contains(self.objects@, key@);
        }
        match self.find_index(key) {
            Some(j) => {
                proof {
                    lemma_map_of_at(self.objects@, j as int);
                }
                Some(&self.objects[j])
            },
            None => None,
        }
    }

    fn find_prefixed(&self, prefix: &str) -> (r: Option<usize>)
        ensures
            r matches Some(j) ==> j < self.objects@.len() && has_prefix(
                self.objects@[j as int].key@,
                prefix@,
            ),
            r is None ==> forall|i: int|
                0 <= i < self.objects@.len() ==> !has_prefix(self.objects@[i].key@, prefix@),
    {
        let n = self.objects.len();
        let mut i: usize = 0;
        while i < n
            invariant
                i <= n,
                n == self.objects@.len(),
                forall|j: int| 0 <= j < i ==> !has_prefix(self.objects@[j].key@, prefix@),
            decreases n - i,
        {
            if starts_with(self.objects[i].key.as_str(), prefix) {
                return Some(i);
            }
            i = i + 1;
        }
        None
    }

    /// Delete every object whose key starts with `prefix`; vacuous when no
    /// key matches. Surviving objects keep their relative order.
    pub fn remove_all(&mut self, prefix: &str)
        requires
            old(self).wf(),
        ensures
            final(self).wf(),
            final(self)@ =~= old(self)@.remove_keys(
                old(self)@.dom().filter(|k: Seq<char>| has_prefix(k, prefix@)),
            ),
            final(self).key_order() =~= order_outside(old(self).key_order(), prefix@),
    {
        loop
            invariant
                unique_keys(self.objects@),
                forall|k: Seq<char>|
                    !has_prefix(k, prefix@) ==> (#[trigger] self@.contains_key(k)
                        <==> old(self)@.contains_key(k)),
                forall|k: Seq<char>|
                    self@.contains_key(k) && !has_prefix(k, prefix@) ==> self@[k] == old(
                        self,
                    )@[k],
                forall|k: Seq<char>| #[trigger]
                    self@.contains_key(k) ==> old(self)@.contains_key(k),
                order_outside(keys_of(self.objects@), prefix@) =~= order_outside(
                    old(self).key_order(),
                    prefix@,
                ),
            decreases self.objects@.len(),
        {
            let j_opt = self.find_prefixed(prefix);
            match j_opt {
                None => {
                    proof {
                        assert forall|k: Seq<char>| has_prefix(k, prefix@) implies !self@.contains_key(
                            k,
                        ) by {
                            lemma_map_of_contains(self.objects@, k);
                        }
                        lemma_order_outside_all(self.key_order(), prefix@);
                        assert(self@ =~= old(self)@.remove_keys(
                            old(self)@.dom().filter(|k: Seq<char>| has_prefix(k, prefix@)),
                        ));
                    }
                    return ;
                },
                Some(j) => {
                    let ghost head = *self;
                    let ghost pre = self.objects@;
                    let ghost pre_map = map_of(pre);
                    let ghost k = pre[j as int].key@;
                    proof {
                        lemma_map_of_remove(pre, j as int);
                        lemma_order_outside_remove(keys_of(pre), j as int, prefix@);
                    }
                    self.objects.remove(j);
                    proof {
                        assert(keys_of(self.objects@) =~= keys_of(pre).remove(j as int));
                        assert(self@ =~= pre_map.remove(k));
                        assert forall|k2: Seq<char>| #[trigger] self@.contains_key(k2) implies old(
                            self,
                        )@.contains_key(k2) by {
                            assert(pre_map.remove(k).contains_key(k2));
                            assert(pre_map.contains_key(k2));
                            assert(head@.contains_key(k2));
                        }
                    }
                },
            }
        }
    }

    /// The keys under `prefix`, in insertion order.
    pub fn list(&self, prefix: &str) -> (r: Vec<String>)
        ensures
            r.deep_view() =~= order_under(self.key_order(), prefix@),
    {
        let n = self.objects.len();
        let mut out: Vec<String> = Vec::new();
        let mut i: usize = 0;
        while i < n
            invariant
                i <= n,
                n == self.objects@.len(),
                out.deep_view() =~= order_under(
                    keys_of(self.objects@).take(i as int),
                    prefix@,
                ),
            decreases n - i,
        {
            let ghost taken = keys_of(self.objects@).take(i as int);
            if starts_with(self.objects[i].key.as_str(), prefix) {
                let k = self.objects[i].key.clone();
                out.push(k);
            }
            i = i + 1;
            proof {
                let next = keys_of(self.objects@).take(i as int);
                assert(next.drop_last() =~= taken);
                assert(next.last() == keys_of(self.objects@)[i - 1]);
                assert(out.deep_view() =~= order_under(next, prefix@));
            }
        }
        assert(keys_of(self.objects@).take(n as int) =~= keys_of(self.objects@));
        out
    }

    /// How many objects the namespace holds in all.
    pub fn len(&self) -> (r: usize)
        ensures
            r == self.key_order().len(),
    {
        self.objects.len()
    }
}

} // verus!
