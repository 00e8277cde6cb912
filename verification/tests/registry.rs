use vxapo_cli::endpoint::EndpointKind;
use vxapo_cli::probe::{cut_is_safe, probe_all, probe_path, EndpointKeyValues, FxValues, RawEndpoint};
use vxapo_cli::reg::{
    decode_reg_sz, parse_multi_utf16, parse_prop_string, parse_utf16_bytes, parse_waveformatex,
    RawValue, ValueType,
};
use vxapo_cli::regdump::{dump_endpoint_lines, dump_values};

fn utf16le(s: &str) -> Vec<u8> {
    let mut out = Vec::new();
    for u in s.encode_utf16() {
        out.extend_from_slice(&u.to_le_bytes());
    }
    out
}

fn sz(s: &str) -> RawValue {
    let mut bytes = utf16le(s);
    bytes.extend_from_slice(&[0, 0]);
    RawValue { vtype: ValueType::Sz, bytes }
}

#[test]
fn utf16_text_stops_at_first_nul() {
    let mut data = utf16le("Speakers");
    data.extend_from_slice(&[0, 0]);
    data.extend_from_slice(&utf16le("junk"));
    assert_eq!(parse_utf16_bytes(&data), Some("Speakers".to_string()));
}

#[test]
fn utf16_text_needs_four_bytes_and_a_character() {
    assert_eq!(parse_utf16_bytes(&[0x41, 0x00]), None);
    assert_eq!(parse_utf16_bytes(&[0, 0, 0x41, 0]), None);
    assert_eq!(parse_utf16_bytes(&[0x41, 0, 0x42, 0]), Some("AB".to_string()));
}

#[test]
fn utf16_surrogate_pairs_decode_and_lone_surrogates_fail() {
    // U+1F3B5 (musical note) as a surrogate pair, then NUL.
    let data = [0x3C, 0xD8, 0xB5, 0xDF, 0, 0];
    assert_eq!(parse_utf16_bytes(&data), Some("\u{1F3B5}".to_string()));
    let lone = [0x3C, 0xD8, 0x41, 0x00, 0, 0];
    assert_eq!(parse_utf16_bytes(&lone), None);
}

#[test]
fn multi_string_joins_pieces_until_double_nul() {
    let mut data = utf16le("one");
    data.extend_from_slice(&[0, 0]);
    data.extend_from_slice(&utf16le("two"));
    data.extend_from_slice(&[0, 0, 0, 0]);
    data.extend_from_slice(&utf16le("ignored"));
    data.extend_from_slice(&[0, 0]);
    assert_eq!(parse_multi_utf16(&data), Some("one | two".to_string()));
}

#[test]
fn multi_string_drops_unterminated_tail_and_empty_input() {
    let mut data = utf16le("a");
    data.extend_from_slice(&[0, 0]);
    data.extend_from_slice(&utf16le("tail"));
    assert_eq!(parse_multi_utf16(&data), Some("a".to_string()));
    assert_eq!(parse_multi_utf16(&[]), None);
    assert_eq!(parse_multi_utf16(&utf16le("x")), None);
}

#[test]
fn prop_string_wide_and_narrow() {
    // VT_LPWSTR (31): byte count 6 = "Hi" + NUL.
    let mut wide = vec![31, 0, 0, 0, 6, 0, 0, 0];
    wide.extend_from_slice(&utf16le("Hi"));
    wide.extend_from_slice(&[0, 0]);
    assert_eq!(parse_prop_string(&wide), Some("Hi".to_string()));
    // VT_LPSTR (30): byte count 4 = "abc" + NUL.
    let narrow = vec![30, 0, 0, 0, 4, 0, 0, 0, b'a', b'b', b'c', 0];
    assert_eq!(parse_prop_string(&narrow), Some("abc".to_string()));
    // Without a trailing NUL the whole count is text.
    let no_nul = vec![30, 0, 0, 0, 2, 0, 0, 0, b'o', b'k'];
    assert_eq!(parse_prop_string(&no_nul), Some("ok".to_string()));
}

#[test]
fn prop_string_rejects_short_bad_type_and_invalid_utf8() {
    assert_eq!(parse_prop_string(&[31, 0, 0, 0]), None);
    assert_eq!(parse_prop_string(&[8, 0, 0, 0, 2, 0, 0, 0, 1, 2]), None);
    // Byte count beyond the data.
    assert_eq!(parse_prop_string(&[31, 0, 0, 0, 40, 0, 0, 0, 0x41, 0]), None);
    // Invalid UTF-8.
    assert_eq!(parse_prop_string(&[30, 0, 0, 0, 2, 0, 0, 0, 0xFF, 0xFE]), None);
}

fn wfx(tag: u16, ch: u16, sr: u32, bits: u16, mask: Option<u32>) -> Vec<u8> {
    let mut d = Vec::new();
    d.extend_from_slice(&tag.to_le_bytes());
    d.extend_from_slice(&ch.to_le_bytes());
    d.extend_from_slice(&sr.to_le_bytes());
    d.extend_from_slice(&[0u8; 6]);
    d.extend_from_slice(&bits.to_le_bytes());
    if let Some(m) = mask {
        d.extend_from_slice(&[0u8; 4]);
        d.extend_from_slice(&m.to_le_bytes());
    }
    d
}

#[test]
fn waveformat_at_offset_zero_and_eight() {
    let plain = wfx(1, 2, 48000, 16, None);
    assert_eq!(parse_waveformatex(&plain), Some((Some(48000), Some(2), Some(16), None)));
    let ext = wfx(0xFFFE, 2, 44100, 24, Some(3));
    assert_eq!(parse_waveformatex(&ext), Some((Some(44100), Some(2), Some(24), Some(3))));
    let mut prefixed = vec![0u8; 8];
    prefixed.extend_from_slice(&wfx(1, 6, 96000, 32, None));
    assert_eq!(parse_waveformatex(&prefixed), Some((Some(96000), Some(6), Some(32), None)));
}

#[test]
fn waveformat_rejects_implausible_values() {
    assert_eq!(parse_waveformatex(&wfx(1, 0, 48000, 16, None)), None);
    assert_eq!(parse_waveformatex(&wfx(1, 2, 2_000_000, 16, None)), None);
    assert_eq!(parse_waveformatex(&wfx(1, 2, 48000, 65, None)), None);
    assert_eq!(parse_waveformatex(&[1, 2, 3]), None);
}

#[test]
fn reg_sz_decodes_by_type() {
    assert_eq!(decode_reg_sz(&sz("x")), Some("x".to_string()));
    let dword = RawValue { vtype: ValueType::Dword, bytes: vec![1, 0, 0, 0] };
    assert_eq!(decode_reg_sz(&dword), None);
}

fn raw(guid: &str, state: u32, iface: Option<&str>, product: Option<&str>, hw: Option<&str>) -> RawEndpoint {
    RawEndpoint {
        guid: guid.to_string(),
        device_state: Some(state),
        format: Some(RawValue { vtype: ValueType::Binary, bytes: wfx(1, 2, 48000, 16, None) }),
        name_interface: iface.map(sz),
        name_product: product.map(sz),
        hardware_id: hw.map(sz),
        endpoint_key: Some(EndpointKeyValues {
            sfx: None,
            mfx: Some(sz("{AAAA}")),
            efx: None,
            flags: None,
            fx: Some(FxValues {
                sfx: Some(sz("{DA2C9ECE-7418-4906-B4FA-0A00B3EB88AA}")),
                mfx: Some(sz("{BBBB}")),
                efx: None,
                disable_enhancements: Some(1),
            }),
            properties_flags: Some(1),
        }),
    }
}

#[test]
fn probe_skips_inactive_and_duplicate_endpoints() {
    let raws = vec![
        raw("{guid-a}", 1, Some("Speakers"), Some("Realtek"), Some("HW1")),
        raw("{guid-b}", 4, Some("Disabled"), None, Some("HW2")),
        raw("{guid-c}", 1, Some("Again"), None, Some("HW1")),
        raw("{guid-d}", 1, None, Some("Mic"), None),
    ];
    let mut out = Vec::new();
    let mut idx = 5usize;
    probe_path(&raws, EndpointKind::Capture, &mut out, &mut idx);
    assert_eq!(idx, 7);
    assert_eq!(out.len(), 2);
    assert_eq!(out[0].index, 5);
    assert_eq!(out[0].name, "Speakers (Realtek)");
    assert_eq!(out[0].kind, EndpointKind::Capture);
    assert_eq!(out[1].index, 6);
    assert_eq!(out[1].name, "Mic");
    assert_eq!(out[1].guid, "{guid-d}");
}

#[test]
fn probe_merges_fx_properties_and_flags() {
    let raws = vec![raw("{g}", 1, Some("Out"), None, None)];
    let eps = probe_all(&raws, &Vec::new());
    let ep = &eps[0];
    assert_eq!(ep.sfx.as_deref(), Some("{DA2C9ECE-7418-4906-B4FA-0A00B3EB88AA}"));
    assert!(ep.sfx_is_system);
    assert_eq!(ep.mfx.as_deref(), Some("{AAAA}"));
    assert!(!ep.mfx_is_system);
    assert_eq!(ep.efx, None);
    assert_eq!(ep.endpoint_flags, Some(1));
    assert_eq!(ep.disable_enhancements, Some(1));
    assert_eq!((ep.sample_rate, ep.channels, ep.bit_depth, ep.channel_mask), (Some(48000), Some(2), Some(16), None));
}

#[test]
fn probe_names_unknown_endpoints_after_their_key() {
    let raws = vec![raw("{0123456789abcdef-rest}", 1, None, None, None)];
    assert!(cut_is_safe(&raws[0]));
    let eps = probe_all(&Vec::new(), &raws);
    assert_eq!(eps[0].name, "Unknown ({0123456789abcde)");
    assert_eq!(eps[0].kind, EndpointKind::Capture);
    assert_eq!(eps[0].index, 0);
}

#[test]
fn dump_formats_values_and_skips_repeats() {
    let values = vec![
        ("{b3f8fa53-0004-438e-9003-51a46e139bfc},0".to_string(), RawValue { vtype: ValueType::Dword, bytes: vec![1, 0, 0, 0] }),
        ("Custom".to_string(), RawValue { vtype: ValueType::Binary, bytes: vec![1, 2, 3, 4, 5, 6, 7, 8, 9, 10] }),
        ("Custom".to_string(), RawValue { vtype: ValueType::Binary, bytes: vec![0] }),
        ("Big".to_string(), RawValue { vtype: ValueType::Qword, bytes: vec![1, 0, 0, 0, 0, 0, 0, 0] }),
        ("Odd".to_string(), RawValue { vtype: ValueType::NoType, bytes: vec![1, 2] }),
    ];
    let mut seen = Vec::new();
    let lines = dump_values(&values, "  ", false, &mut seen);
    assert_eq!(seen, vec!["{b3f8fa53-0004-438e-9003-51a46e139bfc},0", "Custom", "Big", "Odd"]);
    assert_eq!(lines.len(), 4);
    assert!(lines[0].starts_with("  [DW]  "));
    assert!(lines[0].contains(" = 0x00000001"));
    assert_eq!(lines[1], format!("  [BIN] {:<40} = [01 02 03 04 05 06 07 08...] (10 bytes)", "Custom"));
    assert_eq!(lines[2], format!("  [QW]  {:<40} = 0x0000000000000001 (1)", "Big"));
    assert_eq!(lines[3], format!("  [??]  {:<40} = (REG_NONE, 2 bytes)", "Odd"));
}

#[test]
fn filtered_dump_keeps_known_properties_only() {
    let values = vec![
        ("Custom".to_string(), sz("x")),
        ("{d04e05a6-594b-4fb6-a80d-01af5eed7d1d},5".to_string(), sz("{AAAA}")),
    ];
    let mut seen = Vec::new();
    let lines = dump_values(&values, "  ", true, &mut seen);
    assert_eq!(seen, vec!["{d04e05a6-594b-4fb6-a80d-01af5eed7d1d},5"]);
    assert_eq!(lines.len(), 1);
    assert!(lines[0].starts_with("  [SZ]  "));
    assert!(lines[0].contains(" = {AAAA}"));
}

#[test]
fn endpoint_dump_has_headings_for_opened_keys() {
    let props = vec![("Custom".to_string(), sz("x"))];
    let lines = dump_endpoint_lines(EndpointKind::Playback, "{g}", &None, &Some(props), &None);
    assert_eq!(lines, vec!["\n  [Playback] {g}".to_string(), "  ── Properties ──".to_string()]);
}
