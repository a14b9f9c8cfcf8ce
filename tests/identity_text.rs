use transfer_jobs::identity::JobIdentity;

#[test]
fn canonical_text_is_grouped_upper_hex() {
    let id = JobIdentity::new(0x0123_4567_89ab_cdef_0011_2233_4455_6677);
    assert_eq!(id.to_canonical(), b"01234567-89AB-CDEF-0011-223344556677".to_vec());
    assert_eq!(JobIdentity::new(0).to_canonical(), b"00000000-0000-0000-0000-000000000000".to_vec());
    assert_eq!(
        JobIdentity::new(u128::MAX).to_canonical(),
        b"FFFFFFFF-FFFF-FFFF-FFFF-FFFFFFFFFFFF".to_vec()
    );
}

#[test]
fn parse_reads_either_case() {
    let want = JobIdentity::new(0x0123_4567_89ab_cdef_0011_2233_4455_6677);
    assert_eq!(JobIdentity::parse(b"01234567-89AB-CDEF-0011-223344556677"), Some(want));
    assert_eq!(JobIdentity::parse(b"01234567-89ab-cdef-0011-223344556677"), Some(want));
}

#[test]
fn parse_of_canonical_text_gives_the_identity_back() {
    for v in [0u128, 1, 0xdead_beef, u128::MAX, 0x8000_0000_0000_0000_0000_0000_0000_0001] {
        let id = JobIdentity::new(v);
        assert_eq!(JobIdentity::parse(&id.to_canonical()), Some(id));
    }
}

#[test]
fn parse_refuses_malformed_text() {
    assert_eq!(JobIdentity::parse(b""), None);
    assert_eq!(JobIdentity::parse(b"01234567-89AB-CDEF-0011-22334455667"), None);
    assert_eq!(JobIdentity::parse(b"01234567-89AB-CDEF-0011-2233445566778"), None);
    assert_eq!(JobIdentity::parse(b"01234567089AB-CDEF-0011-223344556677"), None);
    assert_eq!(JobIdentity::parse(b"0123456G-89AB-CDEF-0011-223344556677"), None);
    assert_eq!(JobIdentity::parse(b"{1234567-89AB-CDEF-0011-223344556677"), None);
}
