use iroh_ffi::author::AuthorId;
use iroh_ffi::error::ErrorKind;
use iroh_ffi::error::IrohError;
use iroh_ffi::hexstr::decode_hex;
use iroh_ffi::hexstr::encode_hex;
use iroh_ffi::live::LiveEvent;
use iroh_ffi::live::SubscriptionAction;
use iroh_ffi::live::subscription_step;
use iroh_ffi::node::IrohNode;
use iroh_ffi::ticket::DocTicket;
use iroh_ffi::ticket::ShareMode;

#[test]
fn test_doc_create() {
    let mut node = IrohNode::new().unwrap();
    let peer_id = node.peer_id();
    println!("id: {}", peer_id);
    let doc = node.create_doc().unwrap();
    let doc_id = doc.id();
    println!("doc_id: {}", doc_id);

    let doc_ticket = doc.share_write().unwrap();
    let doc_ticket_string = doc_ticket.to_string();
    let dock_ticket_back = DocTicket::from_string(doc_ticket_string.clone()).unwrap();
    assert_eq!(doc_ticket.to_string(), dock_ticket_back.to_string());
    println!("doc_ticket: {}", doc_ticket_string);
    node.import_doc(&doc_ticket).unwrap();
}

#[test]
fn test_ticket_round_trip() {
    let mut node = IrohNode::new().unwrap();
    let doc = node.create_doc().unwrap();
    for ticket in [doc.share_read().unwrap(), doc.share_write().unwrap()] {
        let text = ticket.to_string();
        let back = DocTicket::from_string(text.clone()).unwrap();
        assert_eq!(back.doc_id(), ticket.doc_id());
        assert_eq!(back.mode(), ticket.mode());
        assert_eq!(back.peer(), ticket.peer());
        assert_eq!(back.to_string(), text);
    }
    let read = doc.share_read().unwrap();
    let write = doc.share_write().unwrap();
    assert_eq!(read.mode(), ShareMode::Read);
    assert_eq!(write.mode(), ShareMode::Write);
    assert_ne!(read.to_string(), write.to_string());
}

#[test]
fn test_ticket_parse_errors() {
    for bad in [
        "",
        "doc",
        "xocw0000",
        "docz0000",
        "docw0g",
        "docw123",
        "docwabcd",
    ] {
        let err = DocTicket::from_string(bad.to_string()).unwrap_err();
        assert_eq!(err.kind(), ErrorKind::DocTicketParse);
    }
}

#[test]
fn test_write_read_consistency() {
    let mut node = IrohNode::new().unwrap();
    let mut doc = node.create_doc().unwrap();
    let author = node.create_author().unwrap();

    let entry = doc
        .set_bytes(node.authors(), &author, b"greeting".to_vec(), b"hello".to_vec())
        .unwrap();
    let entries = doc.latest().unwrap();
    assert_eq!(entries.len(), 1);
    assert_eq!(entries[0].key(), b"greeting".to_vec());
    assert_eq!(entries[0].author().bytes(), author.bytes());
    assert_eq!(doc.get_content_bytes(&entry).unwrap(), b"hello".to_vec());
    assert_eq!(doc.get_content_bytes(&entries[0]).unwrap(), b"hello".to_vec());

    // A second write to the same author/key slot replaces the entry.
    doc.set_bytes(node.authors(), &author, b"greeting".to_vec(), b"hello again".to_vec())
        .unwrap();
    let entries = doc.latest().unwrap();
    assert_eq!(entries.len(), 1);
    assert_eq!(
        doc.get_content_bytes(&entries[0]).unwrap(),
        b"hello again".to_vec()
    );

    // A different author writing the same key takes a slot of its own.
    let other = node.create_author().unwrap();
    doc.set_bytes(node.authors(), &other, b"greeting".to_vec(), b"hi".to_vec())
        .unwrap();
    assert_eq!(doc.latest().unwrap().len(), 2);
}

#[test]
fn test_end_to_end() {
    let mut node = IrohNode::new().unwrap();
    let mut doc = node.create_doc().unwrap();
    let author = node.create_author().unwrap();
    doc.set_bytes(node.authors(), &author, b"greeting".to_vec(), b"hello".to_vec())
        .unwrap();
    let entries = doc.latest().unwrap();
    assert_eq!(entries.len(), 1);
    assert_eq!(entries[0].key(), b"greeting".to_vec());
    assert_eq!(doc.get_content_bytes(&entries[0]).unwrap(), b"hello".to_vec());
}

#[test]
fn test_author_identity() {
    let mut node = IrohNode::new().unwrap();
    let first = node.create_author().unwrap();
    let second = node.create_author().unwrap();
    assert_ne!(first.bytes(), second.bytes());
    assert_ne!(first.to_string(), second.to_string());
    assert!(!first.same_author(&second));
    // The text form is stable across repeated renderings.
    assert_eq!(first.to_string(), first.to_string());
    assert_eq!(second.to_string(), second.to_string());
}

#[test]
fn test_ticket_scoped_access() {
    let mut node = IrohNode::new().unwrap();
    let mut doc = node.create_doc().unwrap();
    let author = node.create_author().unwrap();
    doc.set_bytes(node.authors(), &author, b"k".to_vec(), b"v".to_vec()).unwrap();

    let read_ticket = doc.share_read().unwrap();
    let mut imported = node.import_doc(&read_ticket).unwrap();
    assert!(!imported.writable());
    let err = imported
        .set_bytes(node.authors(), &author, b"k".to_vec(), b"forged".to_vec())
        .unwrap_err();
    assert_eq!(err.kind(), ErrorKind::Doc);
    // A read-mode handle cannot mint write capability either.
    let err = imported.share_write().unwrap_err();
    assert_eq!(err.kind(), ErrorKind::Doc);

    let write_ticket = doc.share_write().unwrap();
    let mut imported = node.import_doc(&write_ticket).unwrap();
    assert!(imported.writable());
    imported
        .set_bytes(node.authors(), &author, b"k".to_vec(), b"granted".to_vec())
        .unwrap();
}

#[test]
fn test_subscription_delivery() {
    let mut node = IrohNode::new().unwrap();
    let mut doc = node.create_doc().unwrap();
    let author = node.create_author().unwrap();
    let sub = doc.subscribe().unwrap();
    assert_eq!(sub, 0);

    doc.set_bytes(node.authors(), &author, b"k".to_vec(), b"v".to_vec()).unwrap();
    assert_eq!(doc.take_events(sub).unwrap(), vec![LiveEvent::InsertLocal]);
    assert_eq!(doc.take_events(sub).unwrap(), vec![]);

    // Each subscription receives the stream independently.
    let second = doc.subscribe().unwrap();
    doc.set_bytes(node.authors(), &author, b"k".to_vec(), b"w".to_vec()).unwrap();
    doc.set_bytes(node.authors(), &author, b"l".to_vec(), b"x".to_vec()).unwrap();
    assert_eq!(
        doc.take_events(sub).unwrap(),
        vec![LiveEvent::InsertLocal, LiveEvent::InsertLocal]
    );
    assert_eq!(
        doc.take_events(second).unwrap(),
        vec![LiveEvent::InsertLocal, LiveEvent::InsertLocal]
    );

    let err = doc.take_events(99).unwrap_err();
    assert_eq!(err.kind(), ErrorKind::Doc);
}

#[test]
fn test_subscription_step() {
    assert_eq!(subscription_step(None), SubscriptionAction::End);
    assert_eq!(
        subscription_step(Some(Ok(LiveEvent::InsertLocal))),
        SubscriptionAction::Deliver(LiveEvent::InsertLocal)
    );
    assert_eq!(
        subscription_step(Some(Ok(LiveEvent::InsertRemote))),
        SubscriptionAction::Deliver(LiveEvent::InsertRemote)
    );
    assert_eq!(
        subscription_step(Some(Ok(LiveEvent::ContentReady))),
        SubscriptionAction::Deliver(LiveEvent::ContentReady)
    );
    let stream_error = IrohError::doc("stream hiccup".to_string());
    assert_eq!(
        subscription_step(Some(Err(stream_error))),
        SubscriptionAction::DropItem
    );
}

#[test]
fn test_error_kinds() {
    assert_eq!(IrohError::runtime("a".to_string()).kind(), ErrorKind::RuntimeInit);
    assert_eq!(IrohError::node_create("b".to_string()).kind(), ErrorKind::NodeCreate);
    assert_eq!(IrohError::doc("c".to_string()).kind(), ErrorKind::Doc);
    assert_eq!(IrohError::doc_ticket("d".to_string()).kind(), ErrorKind::DocTicketParse);
    assert_eq!(IrohError::author("e".to_string()).kind(), ErrorKind::Author);
    let err = IrohError::doc("broken pipe".to_string());
    assert_eq!(err.message(), "broken pipe");
}

#[test]
fn test_hex_codec() {
    let empty: Vec<u8> = vec![];
    assert_eq!(encode_hex(&empty), "");
    assert_eq!(encode_hex(&vec![0x00, 0xff, 0x1a]), "00ff1a");
    assert_eq!(decode_hex("00ff1a"), Some(vec![0x00, 0xff, 0x1a]));
    assert_eq!(decode_hex(""), Some(empty));
    assert_eq!(decode_hex("0"), None);
    assert_eq!(decode_hex("0g"), None);
    assert_eq!(decode_hex("AB"), None);
}

#[test]
fn test_stats() {
    let mut node = IrohNode::new().unwrap();
    let stats = node.stats().unwrap();
    assert_eq!(stats.len(), 2);
    assert_eq!(stats[0].0, "docs_created");
    assert_eq!(stats[0].1.value, 0);
    assert_eq!(stats[1].0, "authors_created");
    assert_eq!(stats[1].1.value, 0);

    node.create_doc().unwrap();
    node.create_author().unwrap();
    node.create_author().unwrap();
    let stats = node.stats().unwrap();
    assert_eq!(stats[0].1.value, 1);
    assert_eq!(stats[1].1.value, 2);
}

#[test]
fn test_peer_identity() {
    let node = IrohNode::new().unwrap();
    assert_eq!(node.peer_id(), "0".repeat(64));
    assert_eq!(node.peer_id(), node.peer_id());

    let custom = IrohNode::with_peer_identity(vec![0xab; 32]).unwrap();
    assert_eq!(custom.peer_id(), "ab".repeat(32));

    let err = IrohNode::with_peer_identity(vec![1, 2, 3]).unwrap_err();
    assert_eq!(err.kind(), ErrorKind::NodeCreate);
}

#[test]
fn test_import_shares_document_identity() {
    let mut origin = IrohNode::new().unwrap();
    let mut doc = origin.create_doc().unwrap();
    let author = origin.create_author().unwrap();
    doc.set_bytes(origin.authors(), &author, b"k".to_vec(), b"v".to_vec()).unwrap();
    let ticket = doc.share_write().unwrap();

    let remote = IrohNode::with_peer_identity(vec![7; 32]).unwrap();
    let imported = remote.import_doc(&ticket).unwrap();
    // The imported handle names the same document; its contents arrive
    // asynchronously through the replication collaborator, so the
    // handle starts out empty.
    assert_eq!(imported.id(), doc.id());
    assert!(imported.latest().unwrap().is_empty());
}

#[test]
fn test_content_reference_is_scoped_to_its_document() {
    let mut node = IrohNode::new().unwrap();
    let mut doc = node.create_doc().unwrap();
    let author = node.create_author().unwrap();
    let entry = doc.set_bytes(node.authors(), &author, b"k".to_vec(), b"v".to_vec()).unwrap();

    let empty_doc = node.create_doc().unwrap();
    let err = empty_doc.get_content_bytes(&entry).unwrap_err();
    assert_eq!(err.kind(), ErrorKind::Doc);
}

#[test]
fn test_doc_identity_across_nodes() {
    // Two documents created on one node get distinct identifiers.
    let mut node = IrohNode::with_peer_identity(vec![1; 32]).unwrap();
    let first = node.create_doc().unwrap();
    let second = node.create_doc().unwrap();
    assert_ne!(first.id(), second.id());

    // A node that imports another node's first document and then
    // creates its own first document holds two distinct documents with
    // distinct identifiers.
    let ticket = first.share_write().unwrap();
    let mut other = IrohNode::with_peer_identity(vec![2; 32]).unwrap();
    let imported = other.import_doc(&ticket).unwrap();
    let own = other.create_doc().unwrap();
    assert_ne!(own.id(), imported.id());
    assert_ne!(own.id(), first.id());
}

#[test]
fn test_remote_replication() {
    // Node A writes an entry and shares the document.
    let mut origin = IrohNode::with_peer_identity(vec![1; 32]).unwrap();
    let mut doc_a = origin.create_doc().unwrap();
    let author = origin.create_author().unwrap();
    let entry_a = doc_a
        .set_bytes(origin.authors(), &author, b"greeting".to_vec(), b"hello".to_vec())
        .unwrap();

    // Node B imports it; the replication collaborator then delivers the
    // entry, first without its content.
    let remote = IrohNode::with_peer_identity(vec![2; 32]).unwrap();
    let ticket = doc_a.share_read().unwrap();
    let mut doc_b = remote.import_doc(&ticket).unwrap();
    let sub = doc_b.subscribe().unwrap();

    let entry_b = doc_b
        .apply_remote_entry(&author, b"greeting".to_vec(), None)
        .unwrap();
    assert_eq!(doc_b.take_events(sub).unwrap(), vec![LiveEvent::InsertRemote]);
    let pending = doc_b.get_content_bytes(&entry_b).unwrap_err();
    assert_eq!(pending.kind(), ErrorKind::Doc);

    // The transfer finishes: the content becomes resolvable and the
    // subscription hears of it.
    doc_b
        .mark_content_ready(entry_b.content_ref(), b"hello".to_vec())
        .unwrap();
    assert_eq!(doc_b.take_events(sub).unwrap(), vec![LiveEvent::ContentReady]);
    let entries = doc_b.latest().unwrap();
    assert_eq!(entries.len(), 1);
    assert_eq!(entries[0].key(), entry_a.key());
    assert_eq!(entries[0].author().bytes(), author.bytes());
    assert_eq!(doc_b.get_content_bytes(&entries[0]).unwrap(), b"hello".to_vec());

    // A slot cannot be marked ready twice, nor a missing one at all.
    let twice = doc_b
        .mark_content_ready(entry_b.content_ref(), b"hello".to_vec())
        .unwrap_err();
    assert_eq!(twice.kind(), ErrorKind::Doc);
    let missing = doc_b.mark_content_ready(99, b"x".to_vec()).unwrap_err();
    assert_eq!(missing.kind(), ErrorKind::Doc);

    // Remote delivery with content in hand resolves at once, and
    // reaches read-imported handles even though local writes cannot.
    assert!(!doc_b.writable());
    let entry_c = doc_b
        .apply_remote_entry(&author, b"other".to_vec(), Some(b"world".to_vec()))
        .unwrap();
    assert_eq!(doc_b.get_content_bytes(&entry_c).unwrap(), b"world".to_vec());
    assert_eq!(doc_b.latest().unwrap().len(), 2);
}

#[test]
fn test_unknown_author_rejected() {
    // A write is accepted only for an identity the owning node handed
    // out: a fabricated identity and one created by another node are
    // both refused, even on a writable handle.
    let mut node = IrohNode::with_peer_identity(vec![1; 32]).unwrap();
    let mut doc = node.create_doc().unwrap();

    let fabricated = AuthorId::from_bytes(vec![9; 32]);
    let err = doc
        .set_bytes(node.authors(), &fabricated, b"k".to_vec(), b"v".to_vec())
        .unwrap_err();
    assert_eq!(err.kind(), ErrorKind::Doc);

    let mut other = IrohNode::with_peer_identity(vec![2; 32]).unwrap();
    let foreign = other.create_author().unwrap();
    let err = doc
        .set_bytes(node.authors(), &foreign, b"k".to_vec(), b"v".to_vec())
        .unwrap_err();
    assert_eq!(err.kind(), ErrorKind::Doc);
    assert!(doc.latest().unwrap().is_empty());

    // The node's own author is accepted.
    let author = node.create_author().unwrap();
    doc.set_bytes(node.authors(), &author, b"k".to_vec(), b"v".to_vec())
        .unwrap();
    assert_eq!(doc.latest().unwrap().len(), 1);
}
