//! Writer identities, and the registry of those a node handed out.
//!
//! An author is an opaque identifier handed out by the node; every entry
//! in a document records the author that wrote it. The identifier's text
//! form is a pure function of its bytes, so it is stable across repeated
//! renderings, and distinct identifiers render to distinct text. A
//! node's registry holds every identity it has created; a local write
//! is accepted only for a registered identity.

use vstd::prelude::*;

use crate::hexstr::encode_hex;
use crate::hexstr::hex_of;
use crate::hexstr::lemma_hex_injective;
use crate::util::bytes_eq;
use crate::util::clone_bytes;

verus! {

/// The number of bytes in a writer identity.
pub const AUTHOR_ID_LEN: usize = 32;

/// An opaque writer identity.
#[derive(Debug, Clone)]
pub struct AuthorId {
    bytes: Vec<u8>,
}

impl View for AuthorId {
    type V = Seq<u8>;

    closed spec fn view(&self) -> Seq<u8> {
        self.bytes@
    }
}

impl AuthorId {
    /// A well-formed identity is exactly `AUTHOR_ID_LEN` bytes long.
    pub open spec fn wf(&self) -> bool {
        self@.len() == AUTHOR_ID_LEN
    }

    /// Wraps raw identity bytes.
    pub fn from_bytes(bytes: Vec<u8>) -> (a: Self)
        requires
            bytes@.len() == AUTHOR_ID_LEN,
        ensures
            a@ == bytes@,
            a.wf(),
    {
        AuthorId { bytes }
    }

    /// How many bytes the identity holds.
    pub fn byte_len(&self) -> (n: usize)
        ensures
            n == self@.len(),
    {
        self.bytes.len()
    }

    /// The identity's bytes.
    pub fn bytes(&self) -> (r: Vec<u8>)
        ensures
            r@ == self@,
    {
        clone_bytes(&self.bytes)
    }

    /// Renders the identity as text. The result depends on the identity
    /// bytes alone, so repeated renderings of one identity agree.
    pub fn to_string(&self) -> (r: String)
        ensures
            r@ == hex_of(self@),
    {
        encode_hex(&self.bytes)
    }

    /// True when the two identities hold the same bytes.
    pub fn same_author(&self, other: &AuthorId) -> (r: bool)
        ensures
            r <==> self@ == other@,
    {
        bytes_eq(&self.bytes, &other.bytes)
    }
}

/// True when the registry rows hold the given identity bytes.
pub open spec fn registry_contains(ids: Seq<Seq<u8>>, id: Seq<u8>) -> bool {
    exists|i: int| 0 <= i < ids.len() && ids[i] == id
}

/// The writer identities one node has handed out, in creation order.
/// Writes into the node's documents are accepted only for identities
/// found here.
#[derive(Debug)]
pub struct AuthorRegistry {
    authors: Vec<AuthorId>,
}

impl View for AuthorRegistry {
    type V = Seq<Seq<u8>>;

    closed spec fn view(&self) -> Seq<Seq<u8>> {
        self.authors@.map_values(|a: AuthorId| a@)
    }
}

impl AuthorRegistry {
    /// An empty registry: a fresh node has handed out nothing.
    pub(crate) fn empty() -> (r: Self)
        ensures
            r@ == Seq::<Seq<u8>>::empty(),
    {
        let r = AuthorRegistry { authors: Vec::new() };
        proof {
            assert(r@ =~= Seq::<Seq<u8>>::empty());
        }
        r
    }

    /// Records one more handed-out identity.
    pub(crate) fn register(&mut self, author: AuthorId)
        ensures
            final(self)@ == old(self)@.push(author@),
    {
        let ghost a = author@;
        self.authors.push(author);
        proof {
            assert(self@ =~= old(self)@.push(a));
        }
    }

    /// True exactly when the identity was handed out by this registry's
    /// node.
    pub fn contains(&self, author: &AuthorId) -> (r: bool)
        ensures
            r <==> registry_contains(self@, author@),
    {
        let mut i: usize = 0;
        while i < self.authors.len()
            invariant
                i <= self.authors.len(),
                forall|j: int| 0 <= j < i ==> self@[j] != author@,
            decreases self.authors.len() - i,
        {
            if self.authors[i].same_author(author) {
                proof {
                    assert(self@[i as int] == author@);
                }
                return true;
            }
            i = i + 1;
        }
        false
    }
}

/// Distinct identities render to distinct text: the text form never
/// conflates two authors.
pub proof fn lemma_author_text_injective(a: AuthorId, b: AuthorId)
    requires
        hex_of(a@) == hex_of(b@),
    ensures
        a@ == b@,
{
    lemma_hex_injective(a@, b@);
}

} // verus!
