//! A handle to one replicated document.
//!
//! The document keeps the current result set of "most recent entry per
//! author and key", a content store resolving each entry's value
//! reference, and one pending-event queue per live subscription. A
//! local write replaces the entry for its author/key slot, appends the
//! value to the content store, and fans an `InsertLocal` event out to
//! every subscription — so a write is visible to a subsequent read, its
//! content resolves to the bytes written, and every subscriber hears of
//! it. Entries received from peers enter through the same commit path
//! with an `InsertRemote` event, their content arriving at once or
//! later through `mark_content_ready`, which announces `ContentReady`.

use vstd::prelude::*;

use crate::author::registry_contains;
use crate::author::AuthorId;
use crate::author::AuthorRegistry;
use crate::author::AUTHOR_ID_LEN;
use crate::error::ErrorKind;
use crate::error::IrohError;
use crate::hexstr::hex_of;
use crate::hexstr::encode_hex;
use crate::live::LiveEvent;
use crate::ticket::DocTicket;
use crate::ticket::ShareMode;
use crate::ticket::DOC_ID_LEN;
use crate::util::clone_bytes;

verus! {

/// The mathematical content of one signed entry.
#[verifier::ext_equal]
pub struct EntryView {
    /// The writer that produced the entry.
    pub author: Seq<u8>,
    /// The key the entry was written under.
    pub key: Seq<u8>,
    /// The entry's value reference into the document's content store.
    pub content_id: int,
    /// The entry's position in the document's write order.
    pub timestamp: int,
}

/// An immutable record produced by one write: author, key, value
/// reference and write position. Once returned it never changes.
#[derive(Debug, Clone)]
pub struct SignedEntry {
    author: AuthorId,
    key: Vec<u8>,
    content_id: usize,
    timestamp: u64,
}

impl View for SignedEntry {
    type V = EntryView;

    closed spec fn view(&self) -> EntryView {
        EntryView {
            author: self.author@,
            key: self.key@,
            content_id: self.content_id as int,
            timestamp: self.timestamp as int,
        }
    }
}

impl SignedEntry {
    /// A well-formed entry names a full-length author identity.
    pub open spec fn wf(&self) -> bool {
        self@.author.len() == AUTHOR_ID_LEN
    }

    /// The identity that wrote the entry.
    pub fn author(&self) -> (a: AuthorId)
        requires
            self.wf(),
        ensures
            a@ == self@.author,
    {
        AuthorId::from_bytes(self.author.bytes())
    }

    /// The key the entry was written under.
    pub fn key(&self) -> (k: Vec<u8>)
        ensures
            k@ == self@.key,
    {
        clone_bytes(&self.key)
    }

    /// The entry's position in the document's write order.
    pub fn timestamp(&self) -> (t: u64)
        ensures
            t as int == self@.timestamp,
    {
        self.timestamp
    }

    /// The entry's value reference into its document's content store.
    pub fn content_ref(&self) -> (c: usize)
        ensures
            c as int == self@.content_id,
    {
        self.content_id
    }
}

/// A fresh entry holding the same record.
fn clone_entry(e: &SignedEntry) -> (r: SignedEntry)
    requires
        e.wf(),
    ensures
        r@ == e@,
{
    let r = SignedEntry {
        author: AuthorId::from_bytes(e.author.bytes()),
        key: clone_bytes(&e.key),
        content_id: e.content_id,
        timestamp: e.timestamp,
    };
    proof {
        assert(r@ =~= e@);
    }
    r
}

/// A fresh vector holding the same events.
fn clone_events(v: &Vec<LiveEvent>) -> (r: Vec<LiveEvent>)
    ensures
        r@ == v@,
{
    let mut out: Vec<LiveEvent> = Vec::new();
    let mut i: usize = 0;
    while i < v.len()
        invariant
            i <= v.len(),
            out@ == v@.take(i as int),
        decreases v.len() - i,
    {
        out.push(v[i]);
        proof {
            assert(v@.take(i + 1) =~= v@.take(i as int).push(v@[i as int]));
        }
        i = i + 1;
    }
    proof {
        assert(v@.take(v@.len() as int) =~= v@);
    }
    out
}

/// True when the entry occupies the author/key slot.
pub open spec fn entry_slot_match(e: EntryView, author: Seq<u8>, key: Seq<u8>) -> bool {
    e.author == author && e.key == key
}

/// True when no two entries occupy the same author/key slot.
pub open spec fn unique_slots(entries: Seq<EntryView>) -> bool {
    forall|i: int, j: int| #![trigger entries[i], entries[j]]
        0 <= i < entries.len() && 0 <= j < entries.len() && i != j ==> !entry_slot_match(
            entries[i],
            entries[j].author,
            entries[j].key,
        )
}

/// True when some entry occupies the author/key slot.
pub open spec fn has_slot(entries: Seq<EntryView>, author: Seq<u8>, key: Seq<u8>) -> bool {
    exists|i: int|
        0 <= i < entries.len() && entry_slot_match(#[trigger] entries[i], author, key)
}

/// The position of the entry occupying the author/key slot.
pub open spec fn slot_index(entries: Seq<EntryView>, author: Seq<u8>, key: Seq<u8>) -> int {
    choose|i: int|
        0 <= i < entries.len() && entry_slot_match(#[trigger] entries[i], author, key)
}

/// The most recent entry for the author/key slot, if any.
pub open spec fn latest_lookup(
    entries: Seq<EntryView>,
    author: Seq<u8>,
    key: Seq<u8>,
) -> Option<EntryView> {
    if has_slot(entries, author, key) {
        Some(entries[slot_index(entries, author, key)])
    } else {
        None
    }
}

/// The result set after a write: the entry replaces its slot's previous
/// occupant, or takes a new slot.
pub open spec fn update_latest(entries: Seq<EntryView>, e: EntryView) -> Seq<EntryView> {
    if has_slot(entries, e.author, e.key) {
        entries.update(slot_index(entries, e.author, e.key), e)
    } else {
        entries.push(e)
    }
}

/// The mathematical content of one content-store slot.
pub open spec fn opt_bytes_view(b: Option<Vec<u8>>) -> Option<Seq<u8>> {
    match b {
        Option::Some(v) => Option::Some(v@),
        Option::None => Option::None,
    }
}

/// Every subscription queue with one more event appended.
pub open spec fn notify_all(subs: Seq<Seq<LiveEvent>>, ev: LiveEvent) -> Seq<Seq<LiveEvent>> {
    subs.map_values(|q: Seq<LiveEvent>| q.push(ev))
}

/// Bounds tying one entry to its document's stores.
pub open spec fn entry_bounds_ok(e: EntryView, blobs_len: int, next_timestamp: int) -> bool {
    e.author.len() == AUTHOR_ID_LEN && 0 <= e.content_id < blobs_len && 0 <= e.timestamp
        < next_timestamp
}

/// The mathematical content of one document handle.
#[verifier::ext_equal]
pub struct DocView {
    /// The store-assigned document identifier.
    pub id: Seq<u8>,
    /// Whether this handle carries write capability.
    pub writable: bool,
    /// Routing bytes of the owning node, minted into tickets.
    pub peer: Seq<u8>,
    /// The current result set: most recent entry per author and key.
    pub entries: Seq<EntryView>,
    /// The content store; an entry's `content_id` points into it. A
    /// `None` slot is content announced by a remote entry that has not
    /// finished downloading yet.
    pub blobs: Seq<Option<Seq<u8>>>,
    /// One pending-event queue per live subscription.
    pub subs: Seq<Seq<LiveEvent>>,
    /// The position the next write will take.
    pub next_timestamp: int,
}

/// A shareable handle to one replicated document.
#[derive(Debug)]
pub struct Doc {
    id: Vec<u8>,
    writable: bool,
    peer: Vec<u8>,
    entries: Vec<SignedEntry>,
    blobs: Vec<Option<Vec<u8>>>,
    subs: Vec<Vec<LiveEvent>>,
    next_timestamp: u64,
}

impl View for Doc {
    type V = DocView;

    closed spec fn view(&self) -> DocView {
        DocView {
            id: self.id@,
            writable: self.writable,
            peer: self.peer@,
            entries: self.entries@.map_values(|e: SignedEntry| e@),
            blobs: self.blobs@.map_values(|b: Option<Vec<u8>>| opt_bytes_view(b)),
            subs: self.subs@.map_values(|q: Vec<LiveEvent>| q@),
            next_timestamp: self.next_timestamp as int,
        }
    }
}

impl Doc {
    /// Internal consistency of a document handle.
    pub open spec fn wf(&self) -> bool {
        &&& self@.id.len() == DOC_ID_LEN
        &&& unique_slots(self@.entries)
        &&& forall|i: int|
            0 <= i < self@.entries.len() ==> entry_bounds_ok(
                #[trigger] self@.entries[i],
                self@.blobs.len() as int,
                self@.next_timestamp,
            )
        &&& 0 <= self@.next_timestamp <= u64::MAX
    }

    /// Opens a fresh, empty document handle.
    pub(crate) fn open_doc(id: Vec<u8>, writable: bool, peer: Vec<u8>) -> (d: Doc)
        requires
            id@.len() == DOC_ID_LEN,
        ensures
            d.wf(),
            d@.id == id@,
            d@.writable == writable,
            d@.peer == peer@,
            d@.entries == Seq::<EntryView>::empty(),
            d@.blobs == Seq::<Option<Seq<u8>>>::empty(),
            d@.subs == Seq::<Seq<LiveEvent>>::empty(),
            d@.next_timestamp == 0,
    {
        let d = Doc {
            id,
            writable,
            peer,
            entries: Vec::new(),
            blobs: Vec::new(),
            subs: Vec::new(),
            next_timestamp: 0,
        };
        proof {
            assert(d@.entries =~= Seq::<EntryView>::empty());
            assert(d@.blobs =~= Seq::<Option<Seq<u8>>>::empty());
            assert(d@.subs =~= Seq::<Seq<LiveEvent>>::empty());
        }
        d
    }

    /// The document's identifier, in its stable text form.
    pub fn id(&self) -> (r: String)
        ensures
            r@ == hex_of(self@.id),
    {
        encode_hex(&self.id)
    }

    /// Whether this handle carries write capability.
    pub fn writable(&self) -> (w: bool)
        ensures
            w == self@.writable,
    {
        self.writable
    }

    /// Mints a write ticket for this document. A handle that does not
    /// itself carry write capability cannot mint one.
    pub fn share_write(&self) -> (r: Result<DocTicket, IrohError>)
        requires
            self.wf(),
        ensures
            r is Ok <==> self@.writable,
            match r {
                Ok(t) => {
                    &&& t.wf()
                    &&& t.spec_doc_id() == self@.id
                    &&& t.spec_mode() == ShareMode::Write
                    &&& t.spec_peer() == self@.peer
                },
                Err(e) => e.spec_kind() == ErrorKind::Doc,
            },
    {
        if !self.writable {
            return Err(
                IrohError::doc(String::from_str("handle carries no write capability to share")),
            );
        }
        Ok(DocTicket::new(clone_bytes(&self.id), ShareMode::Write, clone_bytes(&self.peer)))
    }

    /// Mints a read ticket for this document.
    pub fn share_read(&self) -> (r: Result<DocTicket, IrohError>)
        requires
            self.wf(),
        ensures
            r is Ok,
            match r {
                Ok(t) => {
                    &&& t.wf()
                    &&& t.spec_doc_id() == self@.id
                    &&& t.spec_mode() == ShareMode::Read
                    &&& t.spec_peer() == self@.peer
                },
                Err(e) => false,
            },
    {
        Ok(DocTicket::new(clone_bytes(&self.id), ShareMode::Read, clone_bytes(&self.peer)))
    }

    /// The position of the entry occupying the author/key slot, if any.
    fn find_entry(&self, author: &AuthorId, key: &Vec<u8>) -> (r: Option<usize>)
        ensures
            match r {
                Some(i) => 0 <= i < self@.entries.len() && entry_slot_match(
                    self@.entries[i as int],
                    author@,
                    key@,
                ),
                None => !has_slot(self@.entries, author@, key@),
            },
    {
        let mut i: usize = 0;
        while i < self.entries.len()
            invariant
                i <= self.entries.len(),
                forall|j: int|
                    0 <= j < i ==> !entry_slot_match(#[trigger] self@.entries[j], author@, key@),
            decreases self.entries.len() - i,
        {
            let same_author = self.entries[i].author.same_author(author);
            let same_key = crate::util::bytes_eq(&self.entries[i].key, key);
            if same_author && same_key {
                return Some(i);
            }
            i = i + 1;
        }
        None
    }

    /// Appends one event to every live subscription's queue, leaving
    /// the rest of the document untouched.
    fn push_event_all(&mut self, ev: LiveEvent)
        ensures
            final(self)@.subs == notify_all(old(self)@.subs, ev),
            final(self)@.entries == old(self)@.entries,
            final(self)@.blobs == old(self)@.blobs,
            final(self)@.id == old(self)@.id,
            final(self)@.writable == old(self)@.writable,
            final(self)@.peer == old(self)@.peer,
            final(self)@.next_timestamp == old(self)@.next_timestamp,
    {
        let mut new_subs: Vec<Vec<LiveEvent>> = Vec::new();
        let mut s: usize = 0;
        while s < self.subs.len()
            invariant
                s <= self.subs.len(),
                new_subs@.len() == s,
                forall|j: int|
                    0 <= j < s ==> #[trigger] new_subs@[j]@ == self.subs@[j]@.push(ev),
            decreases self.subs.len() - s,
        {
            let mut q = clone_events(&self.subs[s]);
            q.push(ev);
            new_subs.push(q);
            s = s + 1;
        }
        self.subs = new_subs;
        proof {
            assert(self@.subs =~= notify_all(old(self)@.subs, ev));
        }
    }

    /// Commits one entry: updates the author/key slot in the result
    /// set, appends the content-store slot the entry references, and
    /// fans the given event out to every subscription.
    fn commit_entry(
        &mut self,
        author: &AuthorId,
        key: Vec<u8>,
        content: Option<Vec<u8>>,
        ev: LiveEvent,
    ) -> (e: SignedEntry)
        requires
            old(self).wf(),
            author@.len() == AUTHOR_ID_LEN,
            old(self)@.next_timestamp < u64::MAX,
        ensures
            final(self).wf(),
            e@.author == author@,
            e@.key == key@,
            e@.content_id == old(self)@.blobs.len(),
            e@.timestamp == old(self)@.next_timestamp,
            final(self)@.entries == update_latest(old(self)@.entries, e@),
            latest_lookup(final(self)@.entries, author@, key@) == Some(e@),
            final(self)@.blobs == old(self)@.blobs.push(opt_bytes_view(content)),
            final(self)@.subs == notify_all(old(self)@.subs, ev),
            final(self)@.next_timestamp == old(self)@.next_timestamp + 1,
            final(self)@.id == old(self)@.id,
            final(self)@.writable == old(self)@.writable,
            final(self)@.peer == old(self)@.peer,
    {
        let found = self.find_entry(author, &key);
        self.push_event_all(ev);

        let content_id = self.blobs.len();
        let ts = self.next_timestamp;
        let entry = SignedEntry {
            author: AuthorId::from_bytes(author.bytes()),
            key,
            content_id,
            timestamp: ts,
        };
        let returned = clone_entry(&entry);
        self.blobs.push(content);
        self.next_timestamp = ts + 1;
        proof {
            assert(self@.blobs =~= old(self)@.blobs.push(opt_bytes_view(content)));
        }

        let ghost entries0 = old(self)@.entries;
        match found {
            Some(i) => {
                self.entries.remove(i);
                self.entries.insert(i, entry);
                proof {
                    assert(has_slot(entries0, author@, key@));
                    let i0 = slot_index(entries0, author@, key@);
                    assert(0 <= i0 < entries0.len() && entry_slot_match(
                        entries0[i0],
                        author@,
                        key@,
                    ));
                    assert(i0 == i);
                    assert(self@.entries =~= entries0.update(i as int, returned@));
                    lemma_latest_after_write(entries0, returned@);
                }
            },
            None => {
                self.entries.push(entry);
                proof {
                    assert(self@.entries =~= entries0.push(returned@));
                    lemma_latest_after_write(entries0, returned@);
                }
            },
        }
        proof {
            assert forall|i: int| 0 <= i < final(self)@.entries.len() implies entry_bounds_ok(
                #[trigger] final(self)@.entries[i],
                final(self)@.blobs.len() as int,
                final(self)@.next_timestamp,
            ) by {
                let u = final(self)@.entries;
                if has_slot(entries0, returned@.author, returned@.key) {
                    assert(u == entries0.update(slot_index(entries0, returned@.author, returned@.key), returned@));
                } else {
                    assert(u == entries0.push(returned@));
                }
            }
        }
        returned
    }

    /// Writes one entry authored by `author` under `key` with content
    /// `value`; `authors` is the owning node's registry, and the write
    /// is accepted only for an identity the node handed out. On success
    /// the returned entry occupies its slot in the result set, its
    /// value reference resolves to `value`, and every live subscription
    /// gains an `InsertLocal` event. The write fails, leaving the
    /// document unchanged, exactly when the handle has no write
    /// capability, the author is not a well-formed identity this node
    /// created, or the write order is exhausted.
    pub fn set_bytes(
        &mut self,
        authors: &AuthorRegistry,
        author: &AuthorId,
        key: Vec<u8>,
        value: Vec<u8>,
    ) -> (r: Result<SignedEntry, IrohError>)
        requires
            old(self).wf(),
        ensures
            final(self).wf(),
            r is Ok <==> (old(self)@.writable && author@.len() == AUTHOR_ID_LEN
                && registry_contains(authors@, author@) && old(self)@.next_timestamp < u64::MAX),
            match r {
                Ok(e) => {
                    &&& e@.author == author@
                    &&& e@.key == key@
                    &&& e@.content_id == old(self)@.blobs.len()
                    &&& e@.timestamp == old(self)@.next_timestamp
                    &&& final(self)@.entries == update_latest(old(self)@.entries, e@)
                    &&& latest_lookup(final(self)@.entries, author@, key@) == Some(e@)
                    &&& final(self)@.blobs == old(self)@.blobs.push(Some(value@))
                    &&& final(self)@.subs == notify_all(old(self)@.subs, LiveEvent::InsertLocal)
                    &&& final(self)@.next_timestamp == old(self)@.next_timestamp + 1
                    &&& final(self)@.id == old(self)@.id
                    &&& final(self)@.writable == old(self)@.writable
                    &&& final(self)@.peer == old(self)@.peer
                },
                Err(e) => *final(self) == *old(self) && e.spec_kind() == ErrorKind::Doc,
            },
    {
        if !self.writable {
            return Err(IrohError::doc(String::from_str("handle carries no write capability")));
        }
        if author.byte_len() != AUTHOR_ID_LEN {
            return Err(IrohError::doc(String::from_str("author identity is malformed")));
        }
        if !authors.contains(author) {
            return Err(IrohError::doc(String::from_str("author is not valid for this node")));
        }
        if self.next_timestamp == u64::MAX {
            return Err(IrohError::doc(String::from_str("write order is exhausted")));
        }
        let entry = self.commit_entry(author, key, Some(value), LiveEvent::InsertLocal);
        Ok(entry)
    }

    /// Applies one entry received from a peer, as decided by the
    /// replication collaborator: the entry takes its author/key slot,
    /// its content-store slot holds the transferred bytes — or stays
    /// pending, to be filled by `mark_content_ready`, where the
    /// transfer has not finished — and every live subscription gains an
    /// `InsertRemote` event. Capability is not consulted: replication
    /// reaches read-imported documents too. Fails, leaving the document
    /// unchanged, exactly when the entry's author identity is malformed
    /// or the write order is exhausted.
    pub fn apply_remote_entry(
        &mut self,
        author: &AuthorId,
        key: Vec<u8>,
        content: Option<Vec<u8>>,
    ) -> (r: Result<SignedEntry, IrohError>)
        requires
            old(self).wf(),
        ensures
            final(self).wf(),
            r is Ok <==> (author@.len() == AUTHOR_ID_LEN && old(self)@.next_timestamp < u64::MAX),
            match r {
                Ok(e) => {
                    &&& e@.author == author@
                    &&& e@.key == key@
                    &&& e@.content_id == old(self)@.blobs.len()
                    &&& e@.timestamp == old(self)@.next_timestamp
                    &&& final(self)@.entries == update_latest(old(self)@.entries, e@)
                    &&& latest_lookup(final(self)@.entries, author@, key@) == Some(e@)
                    &&& final(self)@.blobs == old(self)@.blobs.push(opt_bytes_view(content))
                    &&& final(self)@.subs == notify_all(old(self)@.subs, LiveEvent::InsertRemote)
                    &&& final(self)@.next_timestamp == old(self)@.next_timestamp + 1
                    &&& final(self)@.id == old(self)@.id
                    &&& final(self)@.writable == old(self)@.writable
                    &&& final(self)@.peer == old(self)@.peer
                },
                Err(e) => *final(self) == *old(self) && e.spec_kind() == ErrorKind::Doc,
            },
    {
        if author.byte_len() != AUTHOR_ID_LEN {
            return Err(IrohError::doc(String::from_str("remote entry names a malformed author")));
        }
        if self.next_timestamp == u64::MAX {
            return Err(IrohError::doc(String::from_str("write order is exhausted")));
        }
        let entry = self.commit_entry(author, key, content, LiveEvent::InsertRemote);
        Ok(entry)
    }

    /// Records that a previously pending content transfer has finished:
    /// the slot now resolves to the transferred bytes, and every live
    /// subscription gains a `ContentReady` event. Fails, leaving the
    /// document unchanged, exactly when the slot does not exist or
    /// already holds content.
    pub fn mark_content_ready(&mut self, content_id: usize, value: Vec<u8>) -> (r: Result<
        (),
        IrohError,
    >)
        requires
            old(self).wf(),
        ensures
            final(self).wf(),
            r is Ok <==> (content_id < old(self)@.blobs.len() && old(self)@.blobs[content_id as int]
                is None),
            match r {
                Ok(u) => {
                    &&& final(self)@.blobs == old(self)@.blobs.update(
                        content_id as int,
                        Some(value@),
                    )
                    &&& final(self)@.subs == notify_all(old(self)@.subs, LiveEvent::ContentReady)
                    &&& final(self)@.entries == old(self)@.entries
                    &&& final(self)@.id == old(self)@.id
                    &&& final(self)@.writable == old(self)@.writable
                    &&& final(self)@.peer == old(self)@.peer
                    &&& final(self)@.next_timestamp == old(self)@.next_timestamp
                },
                Err(e) => *final(self) == *old(self) && e.spec_kind() == ErrorKind::Doc,
            },
    {
        if content_id >= self.blobs.len() {
            return Err(IrohError::doc(String::from_str("no such content slot in this document")));
        }
        let pending = match &self.blobs[content_id] {
            Option::None => true,
            Option::Some(_) => false,
        };
        if !pending {
            return Err(IrohError::doc(String::from_str("content slot already holds its bytes")));
        }
        self.blobs.remove(content_id);
        self.blobs.insert(content_id, Some(value));
        proof {
            assert(self@.blobs =~= old(self)@.blobs.update(content_id as int, Some(value@)));
        }
        self.push_event_all(LiveEvent::ContentReady);
        Ok(())
    }

    /// The full current result set: the most recent entry per author
    /// and key, re-queried at call time.
    pub fn latest(&self) -> (r: Result<Vec<SignedEntry>, IrohError>)
        requires
            self.wf(),
        ensures
            r is Ok,
            match r {
                Ok(entries) => entries@.map_values(|e: SignedEntry| e@) == self@.entries,
                Err(e) => false,
            },
    {
        let mut out: Vec<SignedEntry> = Vec::new();
        let mut i: usize = 0;
        while i < self.entries.len()
            invariant
                self.wf(),
                i <= self.entries.len(),
                out@.len() == i,
                forall|j: int| 0 <= j < i ==> #[trigger] out@[j]@ == self@.entries[j],
            decreases self.entries.len() - i,
        {
            proof {
                assert(entry_bounds_ok(
                    self@.entries[i as int],
                    self@.blobs.len() as int,
                    self@.next_timestamp,
                ));
            }
            let copied = clone_entry(&self.entries[i]);
            out.push(copied);
            i = i + 1;
        }
        proof {
            assert(out@.map_values(|e: SignedEntry| e@) =~= self@.entries);
        }
        Ok(out)
    }

    /// Resolves an entry's value reference to its full content. Fails,
    /// with a `Doc` error, exactly when the reference does not point
    /// into this document's content store, or points at content whose
    /// transfer has not finished.
    pub fn get_content_bytes(&self, entry: &SignedEntry) -> (r: Result<Vec<u8>, IrohError>)
        ensures
            r is Ok <==> (0 <= entry@.content_id < self@.blobs.len() && self@.blobs[entry@.content_id]
                is Some),
            match r {
                Ok(content) => Some(content@) == self@.blobs[entry@.content_id],
                Err(e) => e.spec_kind() == ErrorKind::Doc,
            },
    {
        if entry.content_id >= self.blobs.len() {
            return Err(IrohError::doc(String::from_str("content is not available in this document")));
        }
        match &self.blobs[entry.content_id] {
            Option::Some(v) => Ok(clone_bytes(v)),
            Option::None => Err(
                IrohError::doc(String::from_str("content has not finished downloading")),
            ),
        }
    }

    /// Starts one more live subscription on this document, independent
    /// of any already running, and returns its identifier. Each
    /// subscription receives the full event stream from this point on.
    pub fn subscribe(&mut self) -> (r: Result<usize, IrohError>)
        requires
            old(self).wf(),
        ensures
            final(self).wf(),
            r is Ok,
            match r {
                Ok(sub) => {
                    &&& sub == old(self)@.subs.len()
                    &&& final(self)@.subs == old(self)@.subs.push(Seq::<LiveEvent>::empty())
                    &&& final(self)@.entries == old(self)@.entries
                    &&& final(self)@.blobs == old(self)@.blobs
                    &&& final(self)@.id == old(self)@.id
                    &&& final(self)@.writable == old(self)@.writable
                    &&& final(self)@.peer == old(self)@.peer
                    &&& final(self)@.next_timestamp == old(self)@.next_timestamp
                },
                Err(e) => false,
            },
    {
        let idx = self.subs.len();
        self.subs.push(Vec::new());
        proof {
            assert(self@.subs =~= old(self)@.subs.push(Seq::<LiveEvent>::empty()));
        }
        Ok(idx)
    }

    /// Hands out and clears the pending events of one subscription, in
    /// the order they were produced. Fails, with a `Doc` error, exactly
    /// when no such subscription exists.
    pub fn take_events(&mut self, sub: usize) -> (r: Result<Vec<LiveEvent>, IrohError>)
        requires
            old(self).wf(),
        ensures
            final(self).wf(),
            r is Ok <==> sub < old(self)@.subs.len(),
            match r {
                Ok(events) => {
                    &&& events@ == old(self)@.subs[sub as int]
                    &&& final(self)@.subs == old(self)@.subs.update(
                        sub as int,
                        Seq::<LiveEvent>::empty(),
                    )
                    &&& final(self)@.entries == old(self)@.entries
                    &&& final(self)@.blobs == old(self)@.blobs
                    &&& final(self)@.id == old(self)@.id
                    &&& final(self)@.writable == old(self)@.writable
                    &&& final(self)@.peer == old(self)@.peer
                    &&& final(self)@.next_timestamp == old(self)@.next_timestamp
                },
                Err(e) => *final(self) == *old(self) && e.spec_kind() == ErrorKind::Doc,
            },
    {
        if sub >= self.subs.len() {
            return Err(IrohError::doc(String::from_str("no such subscription on this document")));
        }
        let events = self.subs.remove(sub);
        self.subs.insert(sub, Vec::new());
        proof {
            assert(self@.subs =~= old(self)@.subs.update(sub as int, Seq::<LiveEvent>::empty()));
        }
        Ok(events)
    }
}

/// A write is read back: after updating the result set with an entry,
/// looking its author/key slot up yields exactly that entry, the result
/// set still has one entry per slot, and every other slot is unchanged.
pub proof fn lemma_latest_after_write(entries: Seq<EntryView>, e: EntryView)
    requires
        unique_slots(entries),
    ensures
        unique_slots(update_latest(entries, e)),
        latest_lookup(update_latest(entries, e), e.author, e.key) == Some(e),
        forall|a: Seq<u8>, k: Seq<u8>|
            !(a == e.author && k == e.key) ==> #[trigger] latest_lookup(
                update_latest(entries, e),
                a,
                k,
            ) == latest_lookup(entries, a, k),
{
    let u = update_latest(entries, e);
    if has_slot(entries, e.author, e.key) {
        let i0 = slot_index(entries, e.author, e.key);
        assert(0 <= i0 < entries.len() && entry_slot_match(entries[i0], e.author, e.key));
        assert(u == entries.update(i0, e));
        assert forall|j: int| 0 <= j < u.len() implies #[trigger] u[j].author == entries[j].author
            && u[j].key == entries[j].key by {
            if j == i0 {
                assert(entries[i0].author == e.author && entries[i0].key == e.key);
            }
        }
        assert(unique_slots(u));
        assert(entry_slot_match(u[i0], e.author, e.key));
        assert(has_slot(u, e.author, e.key));
        let j0 = slot_index(u, e.author, e.key);
        assert(0 <= j0 < u.len() && entry_slot_match(u[j0], e.author, e.key));
        assert(j0 == i0);
        assert(latest_lookup(u, e.author, e.key) == Some(e));
    } else {
        assert(u == entries.push(e));
        assert forall|i: int| 0 <= i < entries.len() implies !entry_slot_match(
            #[trigger] entries[i],
            e.author,
            e.key,
        ) by {}
        assert forall|i: int, j: int| #![trigger u[i], u[j]]
            0 <= i < u.len() && 0 <= j < u.len() && i != j implies !entry_slot_match(
            u[i],
            u[j].author,
            u[j].key,
        ) by {
            if i < entries.len() && j < entries.len() {
                assert(u[i] == entries[i] && u[j] == entries[j]);
            } else if i == entries.len() {
                assert(u[i] == e && u[j] == entries[j]);
                if entry_slot_match(e, entries[j].author, entries[j].key) {
                    assert(entry_slot_match(entries[j], e.author, e.key));
                }
            } else {
                assert(u[j] == e && u[i] == entries[i]);
            }
        }
        let n = entries.len() as int;
        assert(u[n] == e);
        assert(entry_slot_match(u[n], e.author, e.key));
        assert(has_slot(u, e.author, e.key));
        let j0 = slot_index(u, e.author, e.key);
        assert(0 <= j0 < u.len() && entry_slot_match(u[j0], e.author, e.key));
        if j0 < n {
            assert(u[j0] == entries[j0]);
            assert(false);
        }
        assert(latest_lookup(u, e.author, e.key) == Some(e));
    }
    assert forall|a: Seq<u8>, k: Seq<u8>| !(a == e.author && k == e.key) implies #[trigger]
    latest_lookup(u, a, k) == latest_lookup(entries, a, k) by {
        lemma_other_slots_unchanged(entries, e, a, k);
    }
}

/// Updating one slot leaves every other slot's lookup unchanged.
proof fn lemma_other_slots_unchanged(entries: Seq<EntryView>, e: EntryView, a: Seq<u8>, k: Seq<u8>)
    requires
        unique_slots(entries),
        !(a == e.author && k == e.key),
    ensures
        latest_lookup(update_latest(entries, e), a, k) == latest_lookup(entries, a, k),
{
    let u = update_latest(entries, e);
    if has_slot(entries, e.author, e.key) {
        let i0 = slot_index(entries, e.author, e.key);
        assert(0 <= i0 < entries.len() && entry_slot_match(entries[i0], e.author, e.key));
        assert(u == entries.update(i0, e));
        if has_slot(entries, a, k) {
            let m = slot_index(entries, a, k);
            assert(0 <= m < entries.len() && entry_slot_match(entries[m], a, k));
            assert(m != i0);
            assert(entry_slot_match(u[m], a, k));
            assert(has_slot(u, a, k));
            let m2 = slot_index(u, a, k);
            assert(0 <= m2 < u.len() && entry_slot_match(u[m2], a, k));
            if m2 != m {
                if m2 == i0 {
                    assert(u[m2] == e);
                    assert(false);
                } else {
                    assert(u[m2] == entries[m2]);
                    assert(entry_slot_match(entries[m2], entries[m].author, entries[m].key));
                    assert(false);
                }
            }
            assert(latest_lookup(u, a, k) == latest_lookup(entries, a, k));
        } else {
            if has_slot(u, a, k) {
                let m2 = slot_index(u, a, k);
                assert(0 <= m2 < u.len() && entry_slot_match(u[m2], a, k));
                if m2 == i0 {
                    assert(u[m2] == e);
                    assert(false);
                } else {
                    assert(u[m2] == entries[m2]);
                    assert(entry_slot_match(entries[m2], a, k));
                    assert(false);
                }
            }
        }
    } else {
        assert(u == entries.push(e));
        let n = entries.len() as int;
        if has_slot(entries, a, k) {
            let m = slot_index(entries, a, k);
            assert(0 <= m < entries.len() && entry_slot_match(entries[m], a, k));
            assert(u[m] == entries[m]);
            assert(entry_slot_match(u[m], a, k));
            assert(has_slot(u, a, k));
            let m2 = slot_index(u, a, k);
            assert(0 <= m2 < u.len() && entry_slot_match(u[m2], a, k));
            if m2 == n {
                assert(u[m2] == e);
                assert(false);
            }
            assert(u[m2] == entries[m2]);
            if m2 != m {
                assert(entry_slot_match(entries[m2], entries[m].author, entries[m].key));
                assert(false);
            }
            assert(latest_lookup(u, a, k) == latest_lookup(entries, a, k));
        } else {
            if has_slot(u, a, k) {
                let m2 = slot_index(u, a, k);
                assert(0 <= m2 < u.len() && entry_slot_match(u[m2], a, k));
                if m2 == n {
                    assert(u[m2] == e);
                    assert(false);
                } else {
                    assert(u[m2] == entries[m2]);
                    assert(false);
                }
            }
        }
    }
}

/// Write/read consistency: a document state reached by a successful
/// write — its result set updated with the new entry, the written value
/// appended to the content store, the entry's reference pointing at it —
/// answers a lookup of the written author/key slot with that entry, and
/// resolves the entry's reference to the written value.
pub proof fn lemma_write_then_read(pre: DocView, post: DocView, e: EntryView, value: Seq<u8>)
    requires
        unique_slots(pre.entries),
        post.entries == update_latest(pre.entries, e),
        post.blobs == pre.blobs.push(Some(value)),
        e.content_id == pre.blobs.len(),
    ensures
        latest_lookup(post.entries, e.author, e.key) == Some(e),
        post.blobs[e.content_id] == Some(value),
{
    lemma_latest_after_write(pre.entries, e);
}

/// Every live subscription hears of each committed write: after a write
/// fans its event out, each queue has gained exactly that event at its
/// end.
pub proof fn lemma_event_fanout(subs: Seq<Seq<LiveEvent>>, ev: LiveEvent, i: int)
    requires
        0 <= i < subs.len(),
    ensures
        notify_all(subs, ev).len() == subs.len(),
        notify_all(subs, ev)[i] == subs[i].push(ev),
        notify_all(subs, ev)[i].last() == ev,
{
}

} // verus!
