//! The server's template store: one record per enrolled user, keyed by the
//! user id, with unique keys as an invariant. Loading from and saving to
//! disk live at the application boundary; here the store is a plain record
//! list with a map-like contract.

use vstd::prelude::*;

verus! {

use crate::protocol::now_rfc3339;

/// Relies on `str`'s `PartialEq`: two string slices compare equal exactly
/// when they hold the same characters.
#[verifier::external_body]
fn str_eq(a: &str, b: &str) -> (r: bool)
    ensures
        r == (a@ == b@),
{
    a == b
}

/// One enrolled template: the Trivium-encrypted feature bits packed into
/// bytes, and the session's Trivium key and IV under FHE.
pub struct TemplateEntry {
    pub user_id: String,
    pub ciphertext: Vec<u8>,
    pub encrypted_key_bytes: Vec<u8>,
    pub encrypted_iv_bytes: Vec<u8>,
    pub created_at: String,
    pub updated_at: String,
}

impl TemplateEntry {
    /// Builds a fresh entry; both timestamps are the moment of creation.
    pub fn new(
        user_id: String,
        ciphertext: Vec<u8>,
        encrypted_key_bytes: Vec<u8>,
        encrypted_iv_bytes: Vec<u8>,
    ) -> (r: Self)
        ensures
            r.user_id == user_id,
            r.ciphertext == ciphertext,
            r.encrypted_key_bytes == encrypted_key_bytes,
            r.encrypted_iv_bytes == encrypted_iv_bytes,
            r.created_at@ == r.updated_at@,
    {
        let now = now_rfc3339();
        let now_again = now.clone();
        Self {
            user_id,
            ciphertext,
            encrypted_key_bytes,
            encrypted_iv_bytes,
            created_at: now,
            updated_at: now_again,
        }
    }
}

/// The template store.
pub struct Database {
    pub version: String,
    pub templates: Vec<TemplateEntry>,
}

impl Database {
    /// Well-formed: no two entries share a user id.
    pub open spec fn wf(self) -> bool {
        forall|i: int, j: int|
            0 <= i < j < self.templates@.len() ==> self.templates@[i].user_id@
                != self.templates@[j].user_id@
    }

    /// Some entry is enrolled under `uid`.
    pub open spec fn has_user(self, uid: Seq<char>) -> bool {
        exists|i: int| 0 <= i < self.templates@.len() && self.templates@[i].user_id@ == uid
    }

    /// The index of the entry enrolled under `uid`.
    pub open spec fn index_of(self, uid: Seq<char>) -> int {
        choose|i: int| 0 <= i < self.templates@.len() && self.templates@[i].user_id@ == uid
    }

    /// The entry enrolled under `uid`, if any.
    pub open spec fn lookup(self, uid: Seq<char>) -> Option<TemplateEntry> {
        if self.has_user(uid) {
            Some(self.templates@[self.index_of(uid)])
        } else {
            None
        }
    }

    /// In a well-formed store, any entry carrying `uid` is the one `lookup`
    /// returns.
    pub proof fn lemma_lookup_at(self, i: int)
        requires
            self.wf(),
            0 <= i < self.templates@.len(),
        ensures
            self.lookup(self.templates@[i].user_id@) == Some(self.templates@[i]),
    {
        let uid = self.templates@[i].user_id@;
        assert(self.has_user(uid));
        let w = self.index_of(uid);
        if w != i {
            assert(self.templates@[w].user_id@ != uid);
        }
    }

    /// An empty store.
    pub fn empty() -> (db: Self)
        ensures
            db.wf(),
            db.templates@.len() == 0,
            forall|uid: Seq<char>| !db.has_user(uid),
            db.version@ == "1.0"@,
    {
        Database { version: "1.0".to_owned(), templates: Vec::new() }
    }

    /// Inserts or overwrites the entry under `entry.user_id`; every other
    /// user's entry is untouched.
    pub fn insert(&mut self, entry: TemplateEntry)
        requires
            old(self).wf(),
        ensures
            final(self).wf(),
            final(self).lookup(entry.user_id@) == Some(entry),
            forall|uid: Seq<char>|
                uid != entry.user_id@ ==> final(self).lookup(uid) == old(self).lookup(uid),
            final(self).version == old(self).version,
    {
        let ghost orig = *self;
        let mut i: usize = 0;
        while i < self.templates.len()
            invariant
                *self == orig,
                orig == *old(self),
                orig.wf(),
                i <= self.templates@.len(),
                forall|k: int| 0 <= k < i ==> self.templates@[k].user_id@ != entry.user_id@,
            decreases self.templates@.len() - i,
        {
            if str_eq(self.templates[i].user_id.as_str(), entry.user_id.as_str()) {
                let ghost at = i as int;
                self.templates[i] = entry;
                proof {
                    lemma_insert_overwrite(orig, *self, at, entry);
                }
                return ;
            }
            i = i + 1;
        }
        self.templates.push(entry);
        proof {
            lemma_insert_append(orig, *self, entry);
        }
    }

    /// The entry enrolled under `user_id`, if any.
    pub fn get(&self, user_id: &str) -> (r: Option<&TemplateEntry>)
        requires
            self.wf(),
        ensures
            match r {
                Some(e) => self.lookup(user_id@) == Some(*e),
                None => self.lookup(user_id@) is None,
            },
    {
        let mut i: usize = 0;
        while i < self.templates.len()
            invariant
                self.wf(),
                i <= self.templates@.len(),
                forall|k: int| 0 <= k < i ==> self.templates@[k].user_id@ != user_id@,
            decreases self.templates@.len() - i,
        {
            if str_eq(self.templates[i].user_id.as_str(), user_id) {
                proof {
                    self.lemma_lookup_at(i as int);
                }
                return Some(&self.templates[i]);
            }
            i = i + 1;
        }
        assert(!self.has_user(user_id@));
        None
    }

    /// Whether some entry is enrolled under `user_id`.
    pub fn contains_user(&self, user_id: &str) -> (r: bool)
        ensures
            r == self.has_user(user_id@),
    {
        let mut i: usize = 0;
        while i < self.templates.len()
            invariant
                i <= self.templates@.len(),
                forall|k: int| 0 <= k < i ==> self.templates@[k].user_id@ != user_id@,
            decreases self.templates@.len() - i,
        {
            if str_eq(self.templates[i].user_id.as_str(), user_id) {
                return true;
            }
            i = i + 1;
        }
        false
    }
}

/// Overwriting the entry at the index that already carried `entry.user_id`
/// updates that user and leaves every other user's lookup unchanged.
proof fn lemma_insert_overwrite(pre: Database, post: Database, at: int, entry: TemplateEntry)
    requires
        pre.wf(),
        0 <= at < pre.templates@.len(),
        pre.templates@[at].user_id@ == entry.user_id@,
        post.templates@ == pre.templates@.update(at, entry),
    ensures
        post.wf(),
        post.lookup(entry.user_id@) == Some(entry),
        forall|uid: Seq<char>| uid != entry.user_id@ ==> post.lookup(uid) == pre.lookup(uid),
{
    assert(post.wf());
    post.lemma_lookup_at(at);
    assert forall|uid: Seq<char>| uid != entry.user_id@ implies post.lookup(uid) == pre.lookup(
        uid,
    ) by {
        if pre.has_user(uid) {
            let w = pre.index_of(uid);
            assert(post.templates@[w] == pre.templates@[w]);
            pre.lemma_lookup_at(w);
            post.lemma_lookup_at(w);
        } else {
            assert forall|i: int| 0 <= i < post.templates@.len() implies post.templates@[i].user_id@
                != uid by {
                if i != at {
                    assert(post.templates@[i] == pre.templates@[i]);
                }
            }
        }
    }
}

/// Appending an entry whose user id was not enrolled adds that user and
/// leaves every other user's lookup unchanged.
proof fn lemma_insert_append(pre: Database, post: Database, entry: TemplateEntry)
    requires
        pre.wf(),
        forall|k: int| 0 <= k < pre.templates@.len() ==> pre.templates@[k].user_id@
            != entry.user_id@,
        post.templates@ == pre.templates@.push(entry),
    ensures
        post.wf(),
        post.lookup(entry.user_id@) == Some(entry),
        forall|uid: Seq<char>| uid != entry.user_id@ ==> post.lookup(uid) == pre.lookup(uid),
{
    let n = pre.templates@.len() as int;
    assert forall|i: int, j: int|
        0 <= i < j < post.templates@.len() implies post.templates@[i].user_id@
        != post.templates@[j].user_id@ by {
        if j < n {
            assert(post.templates@[i] == pre.templates@[i]);
            assert(post.templates@[j] == pre.templates@[j]);
        } else {
            assert(post.templates@[i] == pre.templates@[i]);
            assert(post.templates@[j] == entry);
        }
    }
    post.lemma_lookup_at(n);
    assert forall|uid: Seq<char>| uid != entry.user_id@ implies post.lookup(uid) == pre.lookup(
        uid,
    ) by {
        if pre.has_user(uid) {
            let w = pre.index_of(uid);
            assert(post.templates@[w] == pre.templates@[w]);
            pre.lemma_lookup_at(w);
            post.lemma_lookup_at(w);
        } else {
            assert forall|i: int| 0 <= i < post.templates@.len() implies post.templates@[i].user_id@
                != uid by {
                if i < n {
                    assert(post.templates@[i] == pre.templates@[i]);
                } else {
                    assert(post.templates@[i] == entry);
                }
            }
        }
    }
}

} // verus!
