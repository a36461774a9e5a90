use cursor_server::error::Error;
use cursor_server::model_catalog::{
    available_model, context_options, merge_response, model_parameters, model_tooltip,
    model_variant, model_variants, unary_payload, usable_model, MergedBody, ModelConfig,
    ModelType,
};

fn model(context_window_tokens: Option<u64>) -> ModelConfig {
    ModelConfig {
        model_hash: "m1".to_string(),
        display_name: "My Model".to_string(),
        tooltip_data: "Fast and careful".to_string(),
        context_window_tokens,
        model_type: ModelType::Anthropic,
    }
}

#[test]
fn builtin_windows_add_no_custom_context() {
    let options = context_options(&model(Some(1_000_000)));
    assert_eq!(options.len(), 4);
    assert_eq!(options[0], ("200k".to_string(), "200K".to_string()));
    assert_eq!(options[3], ("1m".to_string(), "1M".to_string()));
    assert_eq!(context_options(&model(None)).len(), 4);
}

#[test]
fn other_windows_add_one_custom_context() {
    let options = context_options(&model(Some(272_000)));
    assert_eq!(options.len(), 5);
    assert_eq!(options[4], ("272000".to_string(), "272K (Custom)".to_string()));
    let options = context_options(&model(Some(123_456)));
    assert_eq!(options[4], ("123456".to_string(), "123456 (Custom)".to_string()));
}

#[test]
fn default_variant_is_the_default_context_at_high_effort() {
    let m = model(None);
    let variant = model_variant(&m, "200k", "200K", "high", "High", false);
    assert_eq!(
        variant.display_name,
        "My Model <span style=\"color: var(--cursor-text-tertiary);\">High</span>"
    );
    assert_eq!(variant.is_default_max_config, Some(true));
    assert_eq!(variant.is_default_non_max_config, Some(true));
    assert_eq!(
        variant.variant_string_representation.as_deref(),
        Some("m1[context=200k,reasoning=high,fast=false]")
    );
    assert_eq!(variant.legacy_slug.as_deref(), Some("m1-200k-high"));
    assert_eq!(variant.parameter_values.len(), 3);
    assert_eq!(variant.parameter_values[2].value, "false");
}

#[test]
fn other_variants_name_their_context_and_speed() {
    let m = model(None);
    let variant = model_variant(&m, "1m", "1M", "xhigh", "Extra High", true);
    assert_eq!(
        variant.display_name,
        "My Model <span style=\"color: var(--cursor-text-tertiary);\">1M Extra High Fast</span>"
    );
    assert_eq!(variant.is_default_max_config, None);
    assert_eq!(variant.legacy_slug.as_deref(), Some("m1-1m-xhigh-fast"));
    assert_eq!(variant.display_name_outside_picker.as_deref(), Some(variant.display_name.as_str()));
}

#[test]
fn every_context_effort_and_speed_has_a_variant() {
    let m = model(Some(272_000));
    let contexts = context_options(&m);
    let variants = model_variants(&m, &contexts);
    assert_eq!(variants.len(), 5 * 5 * 2);
    assert_eq!(variants[0].legacy_slug.as_deref(), Some("m1-200k-low"));
    assert_eq!(variants[1].legacy_slug.as_deref(), Some("m1-200k-low-fast"));
    assert_eq!(variants[49].legacy_slug.as_deref(), Some("m1-272000-max-fast"));
}

#[test]
fn parameters_offer_context_effort_and_speed() {
    let contexts = context_options(&model(None));
    let parameters = model_parameters(&contexts);
    assert_eq!(parameters.len(), 3);
    assert_eq!(parameters[0].id, "context");
    assert_eq!(parameters[1].id, "reasoning");
    assert_eq!(parameters[1].name, "Effort");
    assert_eq!(parameters[1].is_cycleable_by_hotkey, Some(true));
    assert_eq!(parameters[2].id, "fast");
    let efforts = &parameters[1]
        .parameter_type
        .as_ref()
        .unwrap()
        .enum_parameter
        .as_ref()
        .unwrap()
        .values;
    assert_eq!(efforts.len(), 5);
    assert_eq!(efforts[3].value, "xhigh");
    assert_eq!(efforts[3].display_name.as_deref(), Some("Extra High"));
}

#[test]
fn available_model_lists_the_legacy_slugs_of_its_variants() {
    let m = model(None);
    let available = available_model(&m);
    assert_eq!(available.name, "m1");
    assert_eq!(available.variants.len(), 40);
    assert_eq!(available.legacy_slugs.len(), 40);
    assert_eq!(available.legacy_slugs[0], "m1-200k-low");
    assert_eq!(available.model_picker_badges[0].label, "Anthropic");
    assert_eq!(available.client_display_name.as_deref(), Some("My Model"));
    assert_eq!(
        model_tooltip(&m).markdown_content.as_deref(),
        Some("Fast and careful")
    );
}

#[test]
fn usable_models_are_named_by_hash_and_display_name() {
    let details = usable_model(&model(None));
    assert_eq!(details.model_id, "m1");
    assert_eq!(details.display_model_id, "m1");
    assert_eq!(details.display_name_short, "My Model");
    assert!(details.thinking_details.is_some());
}

#[test]
fn unary_bodies_are_framed_only_when_the_length_matches() {
    let framed = [0u8, 0, 0, 0, 2, 7, 8];
    let (is_framed, payload) = unary_payload(&framed).unwrap();
    assert!(is_framed);
    assert_eq!(payload, &[7, 8]);
    let unframed = [0u8, 0, 0, 0, 9, 7, 8];
    let (is_framed, payload) = unary_payload(&unframed).unwrap();
    assert!(!is_framed);
    assert_eq!(payload, &unframed);
    let short = [1u8, 2];
    assert_eq!(unary_payload(&short).unwrap(), (false, &short[..]));
    match unary_payload(&[2u8, 0, 0, 0, 0]) {
        Err(Error::Protocol(message)) => assert_eq!(
            message,
            "cannot merge compressed or terminal model catalog frame: flags=2"
        ),
        other => panic!("unexpected {other:?}"),
    }
}

#[test]
fn merged_catalogs_keep_the_upstream_framing() {
    match merge_response(true, &[0, 0, 0, 0, 1, 9], vec![5, 6]).unwrap() {
        MergedBody::Upstream(body) => assert_eq!(body, vec![0, 0, 0, 0, 3, 9, 5, 6]),
        other => panic!("unexpected {other:?}"),
    }
    match merge_response(true, &[9, 9], vec![5]).unwrap() {
        MergedBody::Upstream(body) => assert_eq!(body, vec![9, 9, 5]),
        other => panic!("unexpected {other:?}"),
    }
    match merge_response(false, &[0, 0, 0, 0, 1, 9], vec![5]).unwrap() {
        MergedBody::Local(body) => assert_eq!(body, vec![5]),
        other => panic!("unexpected {other:?}"),
    }
    assert!(merge_response(true, &[1, 0, 0, 0, 0], vec![5]).is_err());
}

#[test]
fn exactly_one_variant_is_the_default() {
    for window in [None, Some(200_000), Some(272_000)] {
        let available = available_model(&model(window));
        let defaults: Vec<usize> = available
            .variants
            .iter()
            .enumerate()
            .filter(|(_, variant)| variant.is_default_non_max_config == Some(true))
            .map(|(index, _)| index)
            .collect();
        assert_eq!(defaults, vec![4]);
        assert_eq!(available.variants[4].legacy_slug.as_deref(), Some("m1-200k-high"));
    }
}

#[test]
fn merged_frames_read_back_as_one_frame() {
    let upstream = [0u8, 0, 0, 0, 2, 1, 2];
    let MergedBody::Upstream(body) = merge_response(true, &upstream, vec![3, 4, 5]).unwrap() else {
        panic!("expected an upstream body")
    };
    let (framed, payload) = unary_payload(&body).unwrap();
    assert!(framed);
    assert_eq!(payload, &[1, 2, 3, 4, 5]);
}
