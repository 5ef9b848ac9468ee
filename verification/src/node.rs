//! The long-lived node: document factory, writer identities and stats.
//!
//! The node hands out documents and writer identities and answers
//! counter snapshots. Every identifier carries the node's own network
//! identity and a per-node counter through an injective byte encoding:
//! no two identifiers handed out by one node are ever equal, a created
//! document's identifier never collides with one created on a node of a
//! different identity, and each keeps a stable text form.
//! Key generation, storage and the network service behind the node are
//! external collaborators; the runtime shell owns them and drives this
//! state through plain values.

use vstd::prelude::*;

use crate::author::registry_contains;
use crate::author::AuthorId;
use crate::author::AuthorRegistry;
use crate::doc::Doc;
use crate::error::ErrorKind;
use crate::error::IrohError;
use crate::hexstr::hex_of;
use crate::hexstr::encode_hex;
use crate::live::LiveEvent;
use crate::ticket::DocTicket;
use crate::ticket::ShareMode;
use crate::ticket::DOC_ID_LEN;
use crate::util::clone_bytes;

verus! {

/// The number of bytes in a node's network identity.
pub const PEER_ID_LEN: usize = 32;

/// The tag byte of identifiers handed to writer identities.
pub const AUTHOR_TAG: u8 = 1;

/// The tag byte of identifiers handed to created documents.
pub const DOC_TAG: u8 = 2;

/// The `j`-th byte, little-endian, of a counter value.
pub open spec fn byte_of(n: u64, j: int) -> u8 {
    if j == 0 {
        (n & 0xff) as u8
    } else if j == 1 {
        ((n >> 8) & 0xff) as u8
    } else if j == 2 {
        ((n >> 16) & 0xff) as u8
    } else if j == 3 {
        ((n >> 24) & 0xff) as u8
    } else if j == 4 {
        ((n >> 32) & 0xff) as u8
    } else if j == 5 {
        ((n >> 40) & 0xff) as u8
    } else if j == 6 {
        ((n >> 48) & 0xff) as u8
    } else if j == 7 {
        ((n >> 56) & 0xff) as u8
    } else {
        0u8
    }
}

/// A 32-byte identifier carrying a tag, the minting node's identity
/// and a counter value: the tag first, then the first 23 bytes of the
/// node's identity, then the counter's bytes.
pub open spec fn scoped_id(tag: u8, peer: Seq<u8>, n: u64) -> Seq<u8>
    recommends
        peer.len() >= 23,
{
    Seq::new(
        32,
        |i: int|
            if i == 0 {
                tag
            } else if i < 24 {
                peer[i - 1]
            } else {
                byte_of(n, i - 24)
            },
    )
}

/// Two identifiers with one tag agree only where both the counter
/// values and the embedded identity bytes agree: the encoding is
/// injective in the counter and in the identity's first 23 bytes.
pub proof fn lemma_scoped_id_injective(tag: u8, peer1: Seq<u8>, n1: u64, peer2: Seq<u8>, n2: u64)
    requires
        peer1.len() >= 23,
        peer2.len() >= 23,
        scoped_id(tag, peer1, n1) == scoped_id(tag, peer2, n2),
    ensures
        n1 == n2,
        forall|j: int| 0 <= j < 23 ==> peer1[j] == peer2[j],
{
    assert forall|j: int| 0 <= j < 23 implies peer1[j] == peer2[j] by {
        assert(scoped_id(tag, peer1, n1)[j + 1] == peer1[j]);
        assert(scoped_id(tag, peer2, n2)[j + 1] == peer2[j]);
        assert(scoped_id(tag, peer1, n1)[j + 1] == scoped_id(tag, peer2, n2)[j + 1]);
    }
    assert forall|j: int| 0 <= j < 8 implies byte_of(n1, j) == byte_of(n2, j) by {
        assert(scoped_id(tag, peer1, n1)[24 + j] == byte_of(n1, j));
        assert(scoped_id(tag, peer2, n2)[24 + j] == byte_of(n2, j));
        assert(scoped_id(tag, peer1, n1)[24 + j] == scoped_id(tag, peer2, n2)[24 + j]);
    }
    assert(n1 & 0xff < 256 && (n1 >> 8) & 0xff < 256 && (n1 >> 16) & 0xff < 256 && (n1 >> 24)
        & 0xff < 256 && (n1 >> 32) & 0xff < 256 && (n1 >> 40) & 0xff < 256 && (n1 >> 48) & 0xff
        < 256 && (n1 >> 56) & 0xff < 256) by (bit_vector);
    assert(n2 & 0xff < 256 && (n2 >> 8) & 0xff < 256 && (n2 >> 16) & 0xff < 256 && (n2 >> 24)
        & 0xff < 256 && (n2 >> 32) & 0xff < 256 && (n2 >> 40) & 0xff < 256 && (n2 >> 48) & 0xff
        < 256 && (n2 >> 56) & 0xff < 256) by (bit_vector);
    assert(byte_of(n1, 0) == byte_of(n2, 0) && byte_of(n1, 1) == byte_of(n2, 1) && byte_of(n1, 2)
        == byte_of(n2, 2) && byte_of(n1, 3) == byte_of(n2, 3) && byte_of(n1, 4) == byte_of(n2, 4)
        && byte_of(n1, 5) == byte_of(n2, 5) && byte_of(n1, 6) == byte_of(n2, 6) && byte_of(n1, 7)
        == byte_of(n2, 7));
    assert(n1 & 0xff == n2 & 0xff && (n1 >> 8) & 0xff == (n2 >> 8) & 0xff && (n1 >> 16) & 0xff
        == (n2 >> 16) & 0xff && (n1 >> 24) & 0xff == (n2 >> 24) & 0xff && (n1 >> 32) & 0xff == (n2
        >> 32) & 0xff && (n1 >> 40) & 0xff == (n2 >> 40) & 0xff && (n1 >> 48) & 0xff == (n2 >> 48)
        & 0xff && (n1 >> 56) & 0xff == (n2 >> 56) & 0xff);
    assert((n1 & 0xff == n2 & 0xff && (n1 >> 8) & 0xff == (n2 >> 8) & 0xff && (n1 >> 16) & 0xff
        == (n2 >> 16) & 0xff && (n1 >> 24) & 0xff == (n2 >> 24) & 0xff && (n1 >> 32) & 0xff == (n2
        >> 32) & 0xff && (n1 >> 40) & 0xff == (n2 >> 40) & 0xff && (n1 >> 48) & 0xff == (n2 >> 48)
        & 0xff && (n1 >> 56) & 0xff == (n2 >> 56) & 0xff) ==> n1 == n2) by (bit_vector);
}

/// The all-zero network identity a bare `new` starts from.
pub open spec fn zero_peer_id() -> Seq<u8> {
    Seq::new(32, |i: int| 0u8)
}

/// Builds the all-zero network identity.
fn zero_peer_vec() -> (v: Vec<u8>)
    ensures
        v@ == zero_peer_id(),
        v@.len() == 32,
{
    let mut v: Vec<u8> = Vec::new();
    let mut i: usize = 0;
    while i < 32
        invariant
            i <= 32,
            v@.len() == i,
            forall|j: int| 0 <= j < i ==> v@[j] == 0u8,
        decreases 32 - i,
    {
        v.push(0u8);
        i = i + 1;
    }
    proof {
        assert(v@ =~= zero_peer_id());
    }
    v
}

/// Builds the 32-byte identifier for a tag, identity and counter value.
fn scoped_id_to_vec(tag: u8, peer: &Vec<u8>, n: u64) -> (v: Vec<u8>)
    requires
        peer@.len() >= 23,
    ensures
        v@ == scoped_id(tag, peer@, n),
        v@.len() == 32,
{
    proof {
        assert(n & 0xff < 256 && (n >> 8) & 0xff < 256 && (n >> 16) & 0xff < 256 && (n >> 24)
            & 0xff < 256 && (n >> 32) & 0xff < 256 && (n >> 40) & 0xff < 256 && (n >> 48) & 0xff
            < 256 && (n >> 56) & 0xff < 256) by (bit_vector);
    }
    let mut v: Vec<u8> = Vec::new();
    v.push(tag);
    let mut i: usize = 0;
    while i < 23
        invariant
            i <= 23,
            peer@.len() >= 23,
            v@.len() == i + 1,
            v@[0] == tag,
            forall|j: int| 0 <= j < i ==> v@[j + 1] == peer@[j],
        decreases 23 - i,
    {
        v.push(peer[i]);
        i = i + 1;
    }
    v.push((n & 0xff) as u8);
    v.push(((n >> 8) & 0xff) as u8);
    v.push(((n >> 16) & 0xff) as u8);
    v.push(((n >> 24) & 0xff) as u8);
    v.push(((n >> 32) & 0xff) as u8);
    v.push(((n >> 40) & 0xff) as u8);
    v.push(((n >> 48) & 0xff) as u8);
    v.push(((n >> 56) & 0xff) as u8);
    proof {
        assert(v@ =~= scoped_id(tag, peer@, n));
    }
    v
}

/// One numeric counter in a stats snapshot.
#[derive(Debug, Clone)]
pub struct CounterStats {
    /// The counter's value at the time of the snapshot.
    pub value: u64,
    /// What the counter counts.
    pub description: String,
}

/// The mathematical content of the node.
#[verifier::ext_equal]
pub struct NodeView {
    /// The node's network identity bytes.
    pub peer: Seq<u8>,
    /// Every writer identity handed out so far, in creation order.
    pub authors: Seq<Seq<u8>>,
    /// How many documents this node has created.
    pub docs_created: int,
    /// How many writer identities this node has created.
    pub authors_created: int,
}

/// The long-lived background node, seen through its blocking facade.
#[derive(Debug)]
pub struct IrohNode {
    peer: Vec<u8>,
    authors: AuthorRegistry,
    docs_created: u64,
    authors_created: u64,
}

impl View for IrohNode {
    type V = NodeView;

    closed spec fn view(&self) -> NodeView {
        NodeView {
            peer: self.peer@,
            authors: self.authors@,
            docs_created: self.docs_created as int,
            authors_created: self.authors_created as int,
        }
    }
}

impl IrohNode {
    /// Internal consistency of the node: every identity handed out
    /// encodes its position in the creation order.
    pub open spec fn wf(&self) -> bool {
        &&& self@.peer.len() == PEER_ID_LEN
        &&& self@.authors.len() == self@.authors_created
        &&& forall|i: int|
            0 <= i < self@.authors.len() ==> #[trigger] self@.authors[i] == scoped_id(
                AUTHOR_TAG,
                self@.peer,
                i as u64,
            )
        &&& 0 <= self@.authors_created <= u64::MAX
        &&& 0 <= self@.docs_created <= u64::MAX
    }

    /// Brings a node up under a given network identity. Fails, with a
    /// `NodeCreate` error, exactly when the identity bytes do not form
    /// a full-length identity.
    pub fn with_peer_identity(peer: Vec<u8>) -> (r: Result<IrohNode, IrohError>)
        ensures
            r is Ok <==> peer@.len() == PEER_ID_LEN,
            match r {
                Ok(n) => {
                    &&& n.wf()
                    &&& n@.peer == peer@
                    &&& n@.authors == Seq::<Seq<u8>>::empty()
                    &&& n@.docs_created == 0
                    &&& n@.authors_created == 0
                },
                Err(e) => e.spec_kind() == ErrorKind::NodeCreate,
            },
    {
        if peer.len() != PEER_ID_LEN {
            return Err(
                IrohError::node_create(String::from_str("network identity has the wrong length")),
            );
        }
        let n = IrohNode {
            peer,
            authors: AuthorRegistry::empty(),
            docs_created: 0,
            authors_created: 0,
        };
        proof {
            assert(n@.authors =~= Seq::<Seq<u8>>::empty());
        }
        Ok(n)
    }

    /// Brings a node up under the zero network identity. Generating and
    /// persisting a real keypair belongs to the key collaborator; the
    /// runtime shell passes a generated identity to `with_peer_identity`,
    /// and only nodes with distinct identities enjoy distinct document
    /// and writer identifiers across nodes.
    pub fn new() -> (r: Result<IrohNode, IrohError>)
        ensures
            r is Ok,
            match r {
                Ok(n) => {
                    &&& n.wf()
                    &&& n@.peer == zero_peer_id()
                    &&& n@.authors == Seq::<Seq<u8>>::empty()
                    &&& n@.docs_created == 0
                    &&& n@.authors_created == 0
                },
                Err(e) => false,
            },
    {
        let peer = zero_peer_vec();
        match IrohNode::with_peer_identity(peer) {
            Ok(n) => Ok(n),
            Err(e) => {
                proof {
                    assert(false);
                }
                Err(e)
            },
        }
    }

    /// The node's stable network identity, in text form.
    pub fn peer_id(&self) -> (r: String)
        ensures
            r@ == hex_of(self@.peer),
    {
        encode_hex(&self.peer)
    }

    /// Creates a new empty document owned by this node; the handle
    /// carries write capability. Fails only when the identifier space
    /// is exhausted.
    pub fn create_doc(&mut self) -> (r: Result<Doc, IrohError>)
        requires
            old(self).wf(),
        ensures
            final(self).wf(),
            r is Ok <==> old(self)@.docs_created < u64::MAX,
            match r {
                Ok(d) => {
                    &&& d.wf()
                    &&& d@.id == scoped_id(DOC_TAG, old(self)@.peer, old(self)@.docs_created as u64)
                    &&& d@.writable == true
                    &&& d@.peer == old(self)@.peer
                    &&& d@.entries == Seq::<crate::doc::EntryView>::empty()
                    &&& d@.blobs == Seq::<Option<Seq<u8>>>::empty()
                    &&& d@.subs == Seq::<Seq<LiveEvent>>::empty()
                    &&& d@.next_timestamp == 0
                    &&& final(self)@.docs_created == old(self)@.docs_created + 1
                    &&& final(self)@.authors == old(self)@.authors
                    &&& final(self)@.authors_created == old(self)@.authors_created
                    &&& final(self)@.peer == old(self)@.peer
                },
                Err(e) => *final(self) == *old(self) && e.spec_kind() == ErrorKind::Doc,
            },
    {
        if self.docs_created == u64::MAX {
            return Err(IrohError::doc(String::from_str("document identifier space is exhausted")));
        }
        let id = scoped_id_to_vec(DOC_TAG, &self.peer, self.docs_created);
        self.docs_created = self.docs_created + 1;
        Ok(Doc::open_doc(id, true, clone_bytes(&self.peer)))
    }

    /// Creates a fresh writer identity. Every identity this node hands
    /// out is distinct from every earlier one. Fails, with an `Author`
    /// error, only when the identifier space is exhausted.
    pub fn create_author(&mut self) -> (r: Result<AuthorId, IrohError>)
        requires
            old(self).wf(),
        ensures
            final(self).wf(),
            r is Ok <==> old(self)@.authors_created < u64::MAX,
            match r {
                Ok(a) => {
                    &&& a.wf()
                    &&& a@ == scoped_id(AUTHOR_TAG, old(self)@.peer, old(self)@.authors_created as u64)
                    &&& final(self)@.authors == old(self)@.authors.push(a@)
                    &&& registry_contains(final(self)@.authors, a@)
                    &&& final(self)@.authors_created == old(self)@.authors_created + 1
                    &&& final(self)@.docs_created == old(self)@.docs_created
                    &&& final(self)@.peer == old(self)@.peer
                    &&& forall|i: int|
                        0 <= i < old(self)@.authors.len() ==> #[trigger] old(self)@.authors[i]
                            != a@
                },
                Err(e) => *final(self) == *old(self) && e.spec_kind() == ErrorKind::Author,
            },
    {
        if self.authors_created == u64::MAX {
            return Err(
                IrohError::author(String::from_str("writer identifier space is exhausted")),
            );
        }
        let count = self.authors_created;
        let stored = AuthorId::from_bytes(scoped_id_to_vec(AUTHOR_TAG, &self.peer, count));
        let returned = AuthorId::from_bytes(scoped_id_to_vec(AUTHOR_TAG, &self.peer, count));
        self.authors.register(stored);
        self.authors_created = count + 1;
        proof {
            assert(final(self)@.authors =~= old(self)@.authors.push(returned@));
            assert(final(self)@.authors[old(self)@.authors.len() as int] == returned@);
            assert forall|i: int| 0 <= i < old(self)@.authors.len() implies #[trigger] old(
                self,
            )@.authors[i] != returned@ by {
                if old(self)@.authors[i] == returned@ {
                    lemma_scoped_id_injective(
                        AUTHOR_TAG,
                        old(self)@.peer,
                        i as u64,
                        old(self)@.peer,
                        count,
                    );
                }
            }
        }
        Ok(returned)
    }

    /// The registry of every writer identity this node has handed
    /// out; a write into one of this node's documents is accepted only
    /// for an identity found here.
    pub fn authors(&self) -> (r: &AuthorRegistry)
        ensures
            r@ == self@.authors,
    {
        &self.authors
    }

    /// Begins tracking the document a ticket describes and returns a
    /// handle to it. The handle carries write capability exactly when
    /// the ticket was minted in write mode; replication proceeds in the
    /// background, so the handle starts out empty. Fails, with a `Doc`
    /// error, exactly when the ticket names a malformed document
    /// identifier.
    pub fn import_doc(&self, ticket: &DocTicket) -> (r: Result<Doc, IrohError>)
        ensures
            r is Ok <==> ticket.wf(),
            match r {
                Ok(d) => {
                    &&& d.wf()
                    &&& d@.id == ticket.spec_doc_id()
                    &&& d@.writable == (ticket.spec_mode() == ShareMode::Write)
                    &&& d@.peer == self@.peer
                    &&& d@.entries == Seq::<crate::doc::EntryView>::empty()
                    &&& d@.blobs == Seq::<Option<Seq<u8>>>::empty()
                    &&& d@.subs == Seq::<Seq<LiveEvent>>::empty()
                    &&& d@.next_timestamp == 0
                },
                Err(e) => e.spec_kind() == ErrorKind::Doc,
            },
    {
        let id = ticket.doc_id();
        if id.len() != DOC_ID_LEN {
            return Err(
                IrohError::doc(String::from_str("ticket names a malformed document identifier")),
            );
        }
        let writable = match ticket.mode() {
            ShareMode::Write => true,
            ShareMode::Read => false,
        };
        Ok(Doc::open_doc(id, writable, clone_bytes(&self.peer)))
    }

    /// A read-only snapshot of the node's counters.
    pub fn stats(&self) -> (r: Result<Vec<(String, CounterStats)>, IrohError>)
        ensures
            r is Ok,
            match r {
                Ok(counters) => {
                    &&& counters@.len() == 2
                    &&& counters@[0].0@ == "docs_created"@
                    &&& counters@[0].1.value as int == self@.docs_created
                    &&& counters@[1].0@ == "authors_created"@
                    &&& counters@[1].1.value as int == self@.authors_created
                },
                Err(e) => false,
            },
    {
        let mut counters: Vec<(String, CounterStats)> = Vec::new();
        counters.push(
            (
                String::from_str("docs_created"),
                CounterStats {
                    value: self.docs_created,
                    description: String::from_str("documents created on this node"),
                },
            ),
        );
        counters.push(
            (
                String::from_str("authors_created"),
                CounterStats {
                    value: self.authors_created,
                    description: String::from_str("writer identities created on this node"),
                },
            ),
        );
        Ok(counters)
    }
}

/// Identities handed out by one node are pairwise distinct: positions
/// in the creation order encode injectively.
pub proof fn lemma_author_ids_distinct(n: IrohNode, i: int, j: int)
    requires
        n.wf(),
        0 <= i < n@.authors.len(),
        0 <= j < n@.authors.len(),
        i != j,
    ensures
        n@.authors[i] != n@.authors[j],
{
    if n@.authors[i] == n@.authors[j] {
        lemma_scoped_id_injective(AUTHOR_TAG, n@.peer, i as u64, n@.peer, j as u64);
    }
}

/// An identity handed out by a node of a different identity is never
/// registered here, so no write under it is accepted on this node's
/// documents: imported capability cannot smuggle a foreign writer in.
pub proof fn lemma_foreign_author_not_registered(n: IrohNode, peer2: Seq<u8>, k: u64)
    requires
        n.wf(),
        peer2.len() >= 23,
        exists|j: int| 0 <= j < 23 && n@.peer[j] != peer2[j],
    ensures
        !registry_contains(n@.authors, scoped_id(AUTHOR_TAG, peer2, k)),
{
    if registry_contains(n@.authors, scoped_id(AUTHOR_TAG, peer2, k)) {
        let i = choose|i: int|
            0 <= i < n@.authors.len() && n@.authors[i] == scoped_id(AUTHOR_TAG, peer2, k);
        assert(n@.authors[i] == scoped_id(AUTHOR_TAG, n@.peer, i as u64));
        lemma_scoped_id_injective(AUTHOR_TAG, n@.peer, i as u64, peer2, k);
        let j = choose|j: int| 0 <= j < 23 && n@.peer[j] != peer2[j];
        assert(n@.peer[j] == peer2[j]);
    }
}

/// Document identity: two created documents share an identifier only
/// when they were created at the same position on nodes whose
/// identities agree through the embedded 23 bytes. In particular, a
/// node's own documents are pairwise distinct, and never collide with
/// a document created — and then imported by ticket — on a node whose
/// identity differs within those bytes. That the identities themselves
/// differ is the key collaborator's to guarantee.
pub proof fn lemma_created_doc_ids_distinct(peer1: Seq<u8>, n1: u64, peer2: Seq<u8>, n2: u64)
    requires
        peer1.len() >= 23,
        peer2.len() >= 23,
        n1 != n2 || (exists|j: int| 0 <= j < 23 && peer1[j] != peer2[j]),
    ensures
        scoped_id(DOC_TAG, peer1, n1) != scoped_id(DOC_TAG, peer2, n2),
{
    if scoped_id(DOC_TAG, peer1, n1) == scoped_id(DOC_TAG, peer2, n2) {
        lemma_scoped_id_injective(DOC_TAG, peer1, n1, peer2, n2);
        if n1 == n2 {
            let j = choose|j: int| 0 <= j < 23 && peer1[j] != peer2[j];
            assert(peer1[j] == peer2[j]);
        }
    }
}

} // verus!
