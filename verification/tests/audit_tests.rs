use simu_backend::audit::{
    audit_page_limit, canonical_row, chain_row_of, client_address, genesis_link, hash_chain,
    next_link, verify_chain, AuditChainRow, AuditDto,
};

const ID1: u128 = 0x0123456789abcdef0123456789abcdef;
const ID2: u128 = 0x00000000000000000000000000000002;

fn row(chain_seq: i64, id: u128, canonical: &str, prev: Option<&str>, hash: Option<&str>) -> AuditChainRow {
    AuditChainRow {
        id,
        chain_seq,
        canonical: canonical.to_string(),
        prev_hash: prev.map(|s| s.to_string()),
        row_hash: hash.map(|s| s.to_string()),
    }
}

#[test]
fn chain_hash_is_sha256_of_prev_bar_canonical() {
    assert_eq!(genesis_link(), "GENESIS");
    assert_eq!(
        hash_chain("GENESIS", "x"),
        "afccea6ea7ab09bc9dcd6e75fe1c5c7c4cd4a6d9172875b030569175a8a626a3"
    );
}

#[test]
fn first_event_links_to_genesis() {
    let (prev, h) = next_link(None, "a");
    assert_eq!(prev, "GENESIS");
    assert_eq!(h, "469af0399036421c44b6ae3a74128d842e466eb00da3be820c0d25c5f6ac2108");
    let (prev2, h2) = next_link(Some(h.as_str()), "b");
    assert_eq!(prev2, h);
    assert_eq!(h2, "1324b18e5547c87de96947ccf86edbada7022d1bacdad3e89c785053df7125b4");
}

#[test]
fn recorded_chain_verifies() {
    let (p1, h1) = next_link(None, "a");
    let (p2, h2) = next_link(Some(h1.as_str()), "b");
    let rows = vec![
        row(1, ID1, "a", Some(p1.as_str()), Some(h1.as_str())),
        row(2, ID2, "b", Some(p2.as_str()), Some(h2.as_str())),
    ];
    let rep = verify_chain(&rows);
    assert_eq!(rep.total, 2);
    assert_eq!(rep.verified, 2);
    assert_eq!(rep.broken_at, None);
    assert!(rep.ok);
}

#[test]
fn tampered_row_breaks_chain() {
    let (p1, h1) = next_link(None, "a");
    let (p2, h2) = next_link(Some(h1.as_str()), "b");
    let rows = vec![
        row(1, ID1, "a-changed", Some(p1.as_str()), Some(h1.as_str())),
        row(2, ID2, "b", Some(p2.as_str()), Some(h2.as_str())),
    ];
    let rep = verify_chain(&rows);
    assert_eq!(rep.total, 2);
    assert_eq!(rep.verified, 0);
    assert_eq!(rep.broken_at, Some(ID1));
    assert!(!rep.ok);
}

#[test]
fn legacy_rows_are_counted_and_skipped() {
    let (p1, h1) = next_link(None, "a");
    let rows = vec![row(1, ID2, "legacy", None, None), row(2, ID1, "a", Some(p1.as_str()), Some(h1.as_str()))];
    let rep = verify_chain(&rows);
    assert_eq!(rep.verified, 2);
    assert!(rep.ok);
}

#[test]
fn wrong_back_link_breaks_chain() {
    let h = hash_chain("other", "a");
    let rows = vec![row(1, ID1, "a", Some("other"), Some(h.as_str()))];
    let rep = verify_chain(&rows);
    assert_eq!(rep.broken_at, Some(ID1));
}

#[test]
fn canonical_text_has_sorted_keys() {
    let c = canonical_row(ID1, Some(ID2), "login", Some("10.0.0.1"), None, "{}", 0);
    assert_eq!(
        c.as_deref(),
        Some(
            "{\"action\":\"login\",\"created_at\":\"1970-01-01T00:00:00.000000Z\",\"id\":\"01234567-89ab-cdef-0123-456789abcdef\",\"ip\":\"10.0.0.1\",\"meta\":{},\"user_agent\":null,\"user_id\":\"00000000-0000-0000-0000-000000000002\"}"
        )
    );
}

#[test]
fn canonical_text_escapes_strings() {
    let c = canonical_row(ID1, None, "a\"b", None, Some("x\ny"), "{\"k\":1}", 1_500_000);
    assert_eq!(
        c.as_deref(),
        Some(
            "{\"action\":\"a\\\"b\",\"created_at\":\"1970-01-01T00:00:01.500000Z\",\"id\":\"01234567-89ab-cdef-0123-456789abcdef\",\"ip\":null,\"meta\":{\"k\":1},\"user_agent\":\"x\\ny\",\"user_id\":null}"
        )
    );
    assert_eq!(canonical_row(ID1, None, "a", None, None, "{}", i64::MAX), None);
}

#[test]
fn canonical_text_rewrites_meta_compactly() {
    let c = canonical_row(ID1, None, "a", None, None, "{ \"b\" : [1, 2],\n \"a\": null }", 0);
    assert_eq!(
        c.as_deref(),
        Some(
            "{\"action\":\"a\",\"created_at\":\"1970-01-01T00:00:00.000000Z\",\"id\":\"01234567-89ab-cdef-0123-456789abcdef\",\"ip\":null,\"meta\":{\"a\":null,\"b\":[1,2]},\"user_agent\":null,\"user_id\":null}"
        )
    );
    assert_eq!(canonical_row(ID1, None, "a", None, None, "not json", 0), None);
}

#[test]
fn chain_row_uses_canonical_text() {
    let e = AuditDto {
        id: ID1,
        user_id: None,
        action: "signup".to_string(),
        ip: None,
        user_agent: None,
        meta: "{}".to_string(),
        created_at: 0,
    };
    let r = chain_row_of(&e, 7, Some("GENESIS".to_string()), None).expect("row");
    assert_eq!(r.id, ID1);
    assert_eq!(
        r.canonical,
        canonical_row(ID1, None, "signup", None, None, "{}", 0).expect("canonical")
    );
    assert_eq!(r.prev_hash.as_deref(), Some("GENESIS"));
}

#[test]
fn forwarded_for_wins_over_real_ip() {
    assert_eq!(
        client_address(Some(Some("1.1.1.1".into())), Some(Some("2.2.2.2".into()))),
        Some("1.1.1.1".to_string())
    );
    assert_eq!(client_address(None, Some(Some("2.2.2.2".into()))), Some("2.2.2.2".to_string()));
    assert_eq!(client_address(Some(None), Some(Some("2.2.2.2".into()))), None);
    assert_eq!(client_address(None, None), None);
}

#[test]
fn audit_page_size_defaults_and_caps() {
    assert_eq!(audit_page_limit(None), 100);
    assert_eq!(audit_page_limit(Some(7)), 7);
    assert_eq!(audit_page_limit(Some(10_000)), 500);
}

#[test]
fn chain_is_checked_in_chain_seq_order() {
    let (p1, h1) = next_link(None, "a");
    let (p2, h2) = next_link(Some(h1.as_str()), "b");
    let rows = vec![
        row(20, ID2, "b", Some(p2.as_str()), Some(h2.as_str())),
        row(10, ID1, "a", Some(p1.as_str()), Some(h1.as_str())),
    ];
    let r = verify_chain(&rows);
    assert!(r.ok);
    assert_eq!((r.total, r.verified, r.broken_at), (2, 2, None));
}
