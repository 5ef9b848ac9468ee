//! Capability tickets for sharing a document.
//!
//! A ticket carries a document identifier, an access mode and the minting
//! node's routing information. Its text form is self-describing and
//! exactly reversible: parsing a rendered ticket gives back the ticket it
//! came from, and two tickets render equally only when they are equal.

use vstd::prelude::*;

use crate::error::ErrorKind;
use crate::error::IrohError;
use crate::hexstr::hex_of;
use crate::hexstr::hex_shaped;
use crate::hexstr::lemma_hex_round_trip;
use crate::hexstr::unhex;
use crate::hexstr::decode_hex;
use crate::hexstr::encode_hex;
use crate::util::clone_bytes;
use crate::util::concat_bytes;
use crate::util::skip_bytes;
use crate::util::take_bytes;

verus! {

/// The number of bytes in a document identifier.
pub const DOC_ID_LEN: usize = 32;

/// The access a ticket grants over the document it names.
#[derive(Clone, Copy, Debug, PartialEq, Eq, Structural)]
pub enum ShareMode {
    /// The importing node may only read the document.
    Read,
    /// The importing node may also write into the document.
    Write,
}

/// The character that stands for an access mode in a ticket's text form.
pub open spec fn mode_char(mode: ShareMode) -> char {
    match mode {
        ShareMode::Read => 'r',
        ShareMode::Write => 'w',
    }
}

/// The text form of a ticket: a `doc` tag, the mode character, then the
/// document identifier and routing bytes rendered as hexadecimal.
pub open spec fn ticket_text(doc_id: Seq<u8>, mode: ShareMode, peer: Seq<u8>) -> Seq<char> {
    seq!['d', 'o', 'c', mode_char(mode)] + hex_of(doc_id + peer)
}

/// The ticket a piece of text stands for, or `None` where the text is
/// not the rendering of any ticket.
pub open spec fn parse_ticket(s: Seq<char>) -> Option<(Seq<u8>, ShareMode, Seq<u8>)> {
    if s.len() >= 4 && s[0] == 'd' && s[1] == 'o' && s[2] == 'c' && (s[3] == 'r' || s[3] == 'w')
        && hex_shaped(s.skip(4)) && unhex(s.skip(4)).len() >= DOC_ID_LEN {
        let bytes = unhex(s.skip(4));
        let mode = if s[3] == 'w' {
            ShareMode::Write
        } else {
            ShareMode::Read
        };
        Some((bytes.take(DOC_ID_LEN as int), mode, bytes.skip(DOC_ID_LEN as int)))
    } else {
        None
    }
}

/// An immutable capability: document identifier, access mode and the
/// routing information of the node that minted it.
#[derive(Debug, Clone)]
pub struct DocTicket {
    doc_id: Vec<u8>,
    mode: ShareMode,
    peer: Vec<u8>,
}

impl DocTicket {
    /// The identifier of the document the ticket names.
    pub closed spec fn spec_doc_id(&self) -> Seq<u8> {
        self.doc_id@
    }

    /// The access mode the ticket grants.
    pub closed spec fn spec_mode(&self) -> ShareMode {
        self.mode
    }

    /// The routing bytes of the minting node.
    pub closed spec fn spec_peer(&self) -> Seq<u8> {
        self.peer@
    }

    /// A well-formed ticket names a full-length document identifier.
    pub open spec fn wf(&self) -> bool {
        self.spec_doc_id().len() == DOC_ID_LEN
    }

    /// Mints a ticket from its parts.
    pub fn new(doc_id: Vec<u8>, mode: ShareMode, peer: Vec<u8>) -> (t: Self)
        requires
            doc_id@.len() == DOC_ID_LEN,
        ensures
            t.wf(),
            t.spec_doc_id() == doc_id@,
            t.spec_mode() == mode,
            t.spec_peer() == peer@,
    {
        DocTicket { doc_id, mode, peer }
    }

    /// The document identifier, as bytes.
    pub fn doc_id(&self) -> (r: Vec<u8>)
        ensures
            r@ == self.spec_doc_id(),
    {
        clone_bytes(&self.doc_id)
    }

    /// The access mode.
    pub fn mode(&self) -> (m: ShareMode)
        ensures
            m == self.spec_mode(),
    {
        self.mode
    }

    /// The routing bytes of the minting node.
    pub fn peer(&self) -> (r: Vec<u8>)
        ensures
            r@ == self.spec_peer(),
    {
        clone_bytes(&self.peer)
    }

    /// Renders the ticket as text; `from_string` is its exact inverse.
    pub fn to_string(&self) -> (r: String)
        ensures
            r@ == ticket_text(self.spec_doc_id(), self.spec_mode(), self.spec_peer()),
    {
        proof {
            reveal_strlit("doc");
            reveal_strlit("r");
            reveal_strlit("w");
        }
        let mut out = String::new();
        out.append("doc");
        match self.mode {
            ShareMode::Read => out.append("r"),
            ShareMode::Write => out.append("w"),
        }
        let payload = concat_bytes(&self.doc_id, &self.peer);
        let rendered = encode_hex(&payload);
        out.append(rendered.as_str());
        proof {
            assert(out@ =~= ticket_text(self.spec_doc_id(), self.spec_mode(), self.spec_peer()));
        }
        out
    }

    /// Parses a previously rendered ticket. Returns the ticket the text
    /// stands for, and a `DocTicketParse` error exactly on text that no
    /// ticket renders to.
    pub fn from_string(content: String) -> (r: Result<Self, IrohError>)
        ensures
            match r {
                Ok(t) => {
                    &&& parse_ticket(content@) == Some(
                        (t.spec_doc_id(), t.spec_mode(), t.spec_peer()),
                    )
                    &&& t.wf()
                },
                Err(e) => {
                    &&& parse_ticket(content@) is None
                    &&& e.spec_kind() == ErrorKind::DocTicketParse
                },
            },
    {
        let s = content.as_str();
        let n = s.unicode_len();
        if n < 4 {
            return Err(IrohError::doc_ticket(String::from_str("ticket text is too short")));
        }
        let c0 = s.get_char(0);
        let c1 = s.get_char(1);
        let c2 = s.get_char(2);
        let c3 = s.get_char(3);
        if c0 != 'd' || c1 != 'o' || c2 != 'c' {
            return Err(IrohError::doc_ticket(String::from_str("ticket text has no doc tag")));
        }
        let mode = if c3 == 'w' {
            ShareMode::Write
        } else if c3 == 'r' {
            ShareMode::Read
        } else {
            return Err(IrohError::doc_ticket(String::from_str("ticket text names no mode")));
        };
        let rest = s.substring_char(4, n);
        proof {
            assert(rest@ =~= content@.skip(4));
        }
        let bytes = match decode_hex(rest) {
            Some(b) => b,
            None => {
                return Err(
                    IrohError::doc_ticket(String::from_str("ticket payload is not hexadecimal")),
                );
            },
        };
        if bytes.len() < DOC_ID_LEN {
            return Err(
                IrohError::doc_ticket(String::from_str("ticket payload is shorter than an id")),
            );
        }
        let doc_id = take_bytes(&bytes, DOC_ID_LEN);
        let peer = skip_bytes(&bytes, DOC_ID_LEN);
        Ok(DocTicket { doc_id, mode, peer })
    }
}

/// Rendering then parsing gives every well-formed ticket back: the text
/// form is exactly reversible.
pub proof fn lemma_ticket_round_trip(doc_id: Seq<u8>, mode: ShareMode, peer: Seq<u8>)
    requires
        doc_id.len() == DOC_ID_LEN,
    ensures
        parse_ticket(ticket_text(doc_id, mode, peer)) == Some((doc_id, mode, peer)),
{
    let s = ticket_text(doc_id, mode, peer);
    lemma_hex_round_trip(doc_id + peer);
    assert(s.skip(4) =~= hex_of(doc_id + peer));
    assert(unhex(s.skip(4)) == doc_id + peer);
    assert((doc_id + peer).take(DOC_ID_LEN as int) =~= doc_id);
    assert((doc_id + peer).skip(DOC_ID_LEN as int) =~= peer);
}

/// Two well-formed tickets render to the same text only when they agree
/// in every part: tickets are equal exactly when their rendered forms
/// are.
pub proof fn lemma_ticket_text_injective(
    doc_id1: Seq<u8>,
    mode1: ShareMode,
    peer1: Seq<u8>,
    doc_id2: Seq<u8>,
    mode2: ShareMode,
    peer2: Seq<u8>,
)
    requires
        doc_id1.len() == DOC_ID_LEN,
        doc_id2.len() == DOC_ID_LEN,
        ticket_text(doc_id1, mode1, peer1) == ticket_text(doc_id2, mode2, peer2),
    ensures
        doc_id1 == doc_id2,
        mode1 == mode2,
        peer1 == peer2,
{
    lemma_ticket_round_trip(doc_id1, mode1, peer1);
    lemma_ticket_round_trip(doc_id2, mode2, peer2);
}

} // verus!
