use blueflame::ca_tpm::der_encode_ecdsa_sig;

#[test]
fn der_encode_strips_leading_zeros_and_pads_high_bit() {
    let mut raw = [0u8; 64];
    raw[30] = 0x01;
    raw[31] = 0x02;
    raw[63] = 0x80;

    let der = der_encode_ecdsa_sig(&raw);
    assert_eq!(der[0], 0x30, "outer tag should be SEQUENCE");
    assert_eq!(der[2], 0x02, "first element should be INTEGER (r)");
    let r_len = der[3] as usize;
    assert_eq!(r_len, 2);
    assert_eq!(&der[4..4 + r_len], &[0x01, 0x02]);
    let s_tag_at = 4 + r_len;
    assert_eq!(der[s_tag_at], 0x02, "second element should be INTEGER (s)");
    let s_len = der[s_tag_at + 1] as usize;
    assert_eq!(der[s_tag_at + 2], 0x00);
    assert_eq!(s_len, 2);
}

#[test]
fn der_encode_handles_all_zero_component() {
    let raw = [0u8; 64];
    let der = der_encode_ecdsa_sig(&raw);
    assert_eq!(&der[0..5], &[0x30, 6, 0x02, 1, 0x00]);
}

#[test]
fn der_encode_full_width_components() {
    let raw = [0xffu8; 64];
    let der = der_encode_ecdsa_sig(&raw);
    assert_eq!(der.len(), 2 + 2 * (2 + 33));
    assert_eq!(der[1] as usize, 2 * (2 + 33));
    assert_eq!(&der[2..5], &[0x02, 33, 0x00]);
}
