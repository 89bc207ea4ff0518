use geosolve_linkage::ids::{format_persistent_id, parse_persistent_id, PlanarBodyId};

#[test]
fn persistent_id_text_round_trips() {
    let text = format_persistent_id(0x0123_4567_89ab_cdef_0011_2233_4455_6677);
    assert_eq!(text, b"0123456789abcdef0011223344556677".to_vec());
    assert_eq!(parse_persistent_id(&text), Some(0x0123_4567_89ab_cdef_0011_2233_4455_6677));
}

#[test]
fn persistent_id_text_rejects_uppercase_and_wrong_length() {
    assert_eq!(parse_persistent_id(b"0123456789ABCDEF0011223344556677"), None);
    assert_eq!(parse_persistent_id(b"0123"), None);
    assert_eq!(parse_persistent_id(b"0123456789abcdef00112233445566778"), None);
}

#[test]
fn planar_body_id_text_is_zero_padded() {
    let id = PlanarBodyId::from_u128(10);
    assert_eq!(id.as_u128(), 10);
    assert_eq!(id.to_text(), b"0000000000000000000000000000000a".to_vec());
}
