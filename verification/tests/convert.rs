use vxapo_cli::convert::{convert_txt_to_toml, decimal_text, ConvertOutcome, ConvertStep};
use vxapo_cli::i18n::Lang;

fn finished(text: &str, numbers: &[(String, Option<String>)]) -> ConvertOutcome {
    match convert_txt_to_toml(text, numbers, Lang::Zh) {
        ConvertStep::Done(o) => o,
        ConvertStep::NeedNumber(n) => panic!("unexpected request for number {n}"),
    }
}

#[test]
fn maximizer_converts_to_compressor_without_legacy_params() {
    let toml = finished(
        "Maximizer: GainBoostDb 6.0 MaxOutputDb -0.3 Release 10.0 Target 0.32 Lookahead 0.75\n",
        &[],
    )
    .result
    .unwrap();
    assert!(toml.contains("type = \"compressor\""), "应生成当前模型名：{toml}");
    assert!(!toml.contains("type = \"maximizer\""));
    assert!(toml.contains("release_ms = 10.0"), "release 应对齐 release_ms：{toml}");
    for dropped in ["gain_boost_db", "max_output_db", "target =", "lookahead_ms"] {
        assert!(!toml.contains(dropped), "{dropped} 应已丢弃：{toml}");
    }
}

#[test]
fn maximizer_release_only() {
    let toml = finished("Maximizer: Release 20\n", &[]).result.unwrap();
    assert!(toml.contains("type = \"compressor\""));
    assert!(toml.contains("release_ms = 20"));
}

#[test]
fn maximizer_with_dropped_params_warns_once() {
    let o = finished("Maximizer: Target 0.3 Dither 1\n", &[]);
    assert_eq!(o.warnings.len(), 1);
    assert!(o.warnings[0].contains("compressor"));
}

#[test]
fn preamp_wide_and_loudness_exact_output() {
    let o = finished(
        "# comment\n\nPreamp: -6 dB\nWide: Surround 0.4\nLoudnessCorrection: 60\n",
        &[],
    );
    assert!(o.warnings.is_empty());
    assert_eq!(
        o.result.unwrap(),
        "version = 1\n\n[[effects]]\ntype = \"preamp\"\ngain_db = -6\n\n[[effects]]\ntype = \"wide\"\nintensity = 0.4\n\n[[effects]]\ntype = \"loudness\"\nphon = 60\nreference_phon = 80\n\n"
    );
}

#[test]
fn unknown_command_and_unrecognized_line_warn() {
    let o = finished("Filter: ON PK Fc 100 Hz\nnonsense\n", &[]);
    assert_eq!(
        o.warnings,
        vec![
            "⚠ 命令 filter: 不再支持，跳过（请手动迁移）".to_string(),
            "⚠ 跳过无法识别的行：nonsense".to_string()
        ]
    );
    assert_eq!(o.result.unwrap(), "version = 1\n\n");
}

#[test]
fn missing_preamp_value_is_an_error() {
    let o = finished("Preamp:\n", &[]);
    assert_eq!(o.result, Err("Preamp 参数无效".to_string()));
}

#[test]
fn graphiceq_asks_for_numbers_then_renders_bands() {
    let text = "GraphicEQ: 25 1; 40 2; 63 3; 100 4; 160 5; 250 6";
    let mut table: Vec<(String, Option<String>)> = Vec::new();
    let mut asked = Vec::new();
    let outcome = loop {
        match convert_txt_to_toml(text, &table, Lang::En) {
            ConvertStep::NeedNumber(n) => {
                asked.push(n.clone());
                table.push((n.clone(), Some(n)));
            }
            ConvertStep::Done(o) => break o,
        }
    };
    assert_eq!(asked[0], "25");
    assert_eq!(asked[1], "1");
    let toml = outcome.result.unwrap();
    assert!(toml.starts_with("version = 1\n\n[[effects]]\ntype = \"peq\"\n[[effects.bands]]\nfc = 25\ngain_db = 1\nq = 1.0\n"));
    assert_eq!(toml.matches("[[effects.bands]]").count(), 6);
}

#[test]
fn graphiceq_with_too_few_bands_is_rejected() {
    let table = vec![("25".to_string(), Some("25".to_string())), ("1".to_string(), Some("1".to_string()))];
    let o = finished("GraphicEQ: 25 1", &table);
    assert_eq!(o.result, Err("GraphicEQ 转换后 1 段，PEQ 要求 6-31 段（请手动调整曲线）".to_string()));
}

#[test]
fn graphiceq_invalid_number_reports_raw_token() {
    let table = vec![("x1".to_string(), None)];
    let o = finished("GraphicEQ: x1 2", &table);
    assert_eq!(o.result, Err("频率无效：x1".to_string()));
}

#[test]
fn graphiceq_bad_segment_and_empty_parameters() {
    let o = match convert_txt_to_toml("GraphicEQ: 25", &[], Lang::En) {
        ConvertStep::Done(o) => o,
        _ => panic!(),
    };
    assert_eq!(o.result, Err("Invalid GraphicEQ segment: '25'".to_string()));
    let o = match convert_txt_to_toml("GraphicEQ:", &[], Lang::En) {
        ConvertStep::Done(o) => o,
        _ => panic!(),
    };
    assert_eq!(o.warnings, vec!["⚠ GraphicEQ: empty parameters skipped".to_string()]);
}

#[test]
fn filter_line_alone_converts_to_header() {
    let o = finished("Filter: ON PK Fc 100 Hz Gain 3 dB Q 1", &[]);
    assert_eq!(o.warnings.len(), 1);
    assert_eq!(o.result, Ok("version = 1\n\n".to_string()));
}

#[test]
fn inserted_skipped_lines_keep_the_result() {
    let base = finished("Preamp: -3 dB\nWide: Intensity 0.5\n", &[]);
    let padded = finished(
        "Preamp: -3 dB\n\n# note\nFilter: ON PK Fc 100 Hz\nstray text\nWide: Intensity 0.5\n",
        &[],
    );
    assert_eq!(padded.result, base.result);
    assert_eq!(padded.warnings.len(), base.warnings.len() + 2);
    let failing = finished("Preamp:\n", &[]);
    let failing_padded = finished("\n# c\nPreamp:\nReverb: Mix 1\n", &[]);
    assert_eq!(failing_padded.result, failing.result);
}

#[test]
fn decimal_comma_reads_as_point() {
    assert_eq!(decimal_text("3,5"), "3.5");
    assert_eq!(decimal_text("-1,25"), "-1.25");
    assert_eq!(decimal_text("100"), "100");
    assert_eq!(decimal_text(""), "");
}
