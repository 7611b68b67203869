//! A storage layer that enriches writes and stats with a content type
//! guessed from the path's extension. An explicitly supplied content type,
//! or one the backend already stores, is never overridden: the guess only
//! fills a gap.

use vstd::prelude::*;
use crate::content_type::fill_content_type;
use crate::content_type::resolved_mime;
use crate::keys::has_prefix;
use crate::storage::MemStorage;
use crate::storage::ObjectV;

verus! {

/// Builds the content-type-guessing layer around a storage backend.
pub struct MimeGuessLayer {}

impl Default for MimeGuessLayer {
    fn default() -> (r: MimeGuessLayer)
        ensures
            r == (MimeGuessLayer {  }),
    {
        MimeGuessLayer {  }
    }
}

impl MimeGuessLayer {
    /// Wrap a backend so that writes and stats carry a guessed content type
    /// whenever none is otherwise present.
    pub fn layer(&self, inner: MemStorage) -> (r: MimeGuessAccessor)
        requires
            inner.wf(),
        ensures
            r.wf(),
            r@ == inner@,
            r.key_order() == inner.key_order(),
    {
        MimeGuessAccessor { inner }
    }
}

/// Metadata reported for a stored object.
pub struct ObjectMeta {
    pub content_length: usize,
    pub content_type: Option<String>,
}

/// A storage backend wrapped with content-type guessing.
pub struct MimeGuessAccessor {
    inner: MemStorage,
}

impl View for MimeGuessAccessor {
    type V = Map<Seq<char>, ObjectV>;

    closed spec fn view(&self) -> Map<Seq<char>, ObjectV> {
        self.inner@
    }
}

impl MimeGuessAccessor {
    /// The wrapped backend is well formed.
    pub closed spec fn wf(&self) -> bool {
        self.inner.wf()
    }

    /// The stored keys in insertion order.
    pub closed spec fn key_order(&self) -> Seq<Seq<char>> {
        self.inner.key_order()
    }

    /// The wrapped backend.
    pub fn inner(&self) -> (r: &MemStorage)
        ensures
            r@ == self@,
            r.wf() == self.wf(),
            r.key_order() == self.key_order(),
    {
        &self.inner
    }

    /// A namespace holds finitely many objects.
    pub proof fn lemma_dom_finite(&self)
        ensures
            self@.dom().finite(),
    {
        self.inner.lemma_dom_finite();
    }

    /// Store `data` under `path`: an explicit content type is kept, a
    /// missing one is filled from the path's extension table.
    pub fn write(&mut self, path: &str, data: Vec<u8>, content_type: Option<String>)
        requires
            old(self).wf(),
        ensures
            final(self).wf(),
            final(self)@ =~= old(self)@.insert(
                path@,
                ObjectV {
                    data: data@,
                    content_type: resolved_mime(path@, content_type.deep_view()),
                },
            ),
            final(self).key_order() =~= crate::storage::order_after_write(
                old(self).key_order(),
                path@,
            ),
    {
        let ct = fill_content_type(path, content_type);
        self.inner.write(path, data, ct);
    }

    /// The metadata of the object at `path`, its content type filled from
    /// the extension table when the stored object reports none.
    pub fn stat(&self, path: &str) -> (r: Option<ObjectMeta>)
        requires
            self.wf(),
        ensures
            r is None <==> !self@.contains_key(path@),
            r matches Some(m) ==> self@.contains_key(path@) && m.content_length
                == self@[path@].data.len() && m.content_type.deep_view() == resolved_mime(
                path@,
                self@[path@].content_type,
            ),
    {
        match self.inner.stat(path) {
            None => None,
            Some(o) => {
                let ct = match &o.content_type {
                    Some(t) => Some(t.clone()),
                    None => fill_content_type(path, None),
                };
                Some(ObjectMeta { content_length: o.data.len(), content_type: ct })
            },
        }
    }

    /// The bytes of the object at `path`, as stored.
    pub fn read(&self, path: &str) -> (r: Option<&Vec<u8>>)
        requires
            self.wf(),
        ensures
            r is None <==> !self@.contains_key(path@),
            r matches Some(d) ==> self@.contains_key(path@) && d@ == self@[path@].data,
    {
        match self.inner.stat(path) {
            None => None,
            Some(o) => Some(&o.data),
        }
    }

    /// Delete every object whose key starts with `prefix`; vacuous when no
    /// key matches.
    pub fn remove_all(&mut self, prefix: &str)
        requires
            old(self).wf(),
        ensures
            final(self).wf(),
            final(self)@ =~= old(self)@.remove_keys(
                old(self)@.dom().filter(|k: Seq<char>| has_prefix(k, prefix@)),
            ),
            final(self).key_order() =~= crate::storage::order_outside(
                old(self).key_order(),
                prefix@,
            ),
    {
        self.inner.remove_all(prefix);
    }

    /// The keys under `prefix`, in insertion order.
    pub fn list(&self, prefix: &str) -> (r: Vec<String>)
        ensures
            r.deep_view() =~= crate::storage::order_under(self.key_order(), prefix@),
    {
        self.inner.list(prefix)
    }
}

} // verus!
