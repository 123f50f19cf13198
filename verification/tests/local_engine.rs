use flarion::prompt::{SendPhase, StreamSend};
use flarion::api_types::ChatMessage;
use flarion::cli::{choose_mode, colorize, render_cells, sample_alpha, RenderMode};
use flarion::error::EngineError;
use flarion::metrics::{
    BUILD_INFO, COMPLETION_TOKENS, FALLBACKS_TOTAL, FIRST_TOKEN_SECONDS, PROMPT_TOKENS,
    REQUESTS_TOTAL, REQUEST_DURATION_SECONDS, ROUTE_EXHAUSTED_TOTAL, ROUTE_RULE_MATCHES_TOTAL,
};
use flarion::prompt::{
    check_context, check_stop_sequences, format_chatml_fallback, format_gemma_turn_fallback,
    sampler_seed, select_prompt, FinishReason, Generation, TemplateOutcome,
};
use flarion::vram_detect::{check_device_count, detect_device_zero, device_reading, first_device, VramDetectError, VramInfo};

fn msg(role: &str, content: &str) -> ChatMessage {
    ChatMessage { role: role.into(), content: content.into() }
}

#[test]
fn chatml_fallback_layout() {
    let p = format_chatml_fallback(&vec![msg("system", "be brief"), msg("user", "hi")]);
    assert_eq!(
        p,
        "<|im_start|>system\nbe brief<|im_end|>\n<|im_start|>user\nhi<|im_end|>\n<|im_start|>assistant\n"
    );
}

#[test]
fn gemma_fallback_names_the_assistant_model() {
    let p = format_gemma_turn_fallback(&vec![msg("user", "hi"), msg("assistant", "yo")]);
    assert!(p.starts_with("<start_of_turn>user\nhi<end_of_turn>\n"));
    assert!(p.contains("<start_of_turn>model\nyo<end_of_turn>\n"));
    assert!(p.ends_with("<start_of_turn>model\n"));
}

#[test]
fn template_outcome_picks_the_prompt() {
    let ms = vec![msg("user", "q")];
    assert_eq!(select_prompt(&ms, TemplateOutcome::Legacy("L".into())), "L");
    assert_eq!(select_prompt(&ms, TemplateOutcome::OaiCompat("O".into())), "O");
    assert_eq!(select_prompt(&ms, TemplateOutcome::NoTemplate), format_chatml_fallback(&ms));
    assert_eq!(select_prompt(&ms, TemplateOutcome::BothFailed), format_gemma_turn_fallback(&ms));
}

#[test]
fn seed_and_context_checks() {
    assert_eq!(sampler_seed(Some(7), Some(9)), 7);
    assert_eq!(sampler_seed(None, Some(9)), 9);
    assert_eq!(sampler_seed(None, None), 0);
    assert!(check_context(4096, 4096).is_ok());
    match check_context(4097, 4096) {
        Err(EngineError::ContextLengthExceeded { requested, max }) => {
            assert_eq!(requested, 4097);
            assert_eq!(max, 4096);
        }
        other => panic!("unexpected {other:?}"),
    }
}

#[test]
fn first_listed_stop_sequence_wins() {
    let text: Vec<char> = "hello END".chars().collect();
    let stops = vec!["D".to_string(), "END".to_string()];
    assert_eq!(check_stop_sequences(&text, &stops), Some("D"));
    let none = vec!["xyz".to_string()];
    assert_eq!(check_stop_sequences(&text, &none), None);
}

#[test]
fn scripted_generate_emits_tokens_and_stops() {
    let stops = vec!["</s>".to_string()];
    let mut g = Generation::start(5, 16);
    assert!(!g.on_piece("Hel", &stops));
    assert!(!g.on_piece("lo", &stops));
    g.on_end_of_generation();
    let r = g.finish();
    assert_eq!(r.text, "Hello");
    assert_eq!(r.prompt_tokens, 5);
    assert_eq!(r.completion_tokens, 2);
    assert_eq!(r.finish_reason, FinishReason::Stop);
    assert!(!r.canceled);
}

#[test]
fn stop_sequence_is_cut_from_the_text() {
    let stops = vec!["###".to_string()];
    let mut g = Generation::start(1, 16);
    assert!(!g.on_piece("answer #", &stops));
    assert!(g.on_piece("##", &stops));
    let r = g.finish();
    assert_eq!(r.text, "answer ");
    assert_eq!(r.finish_reason.as_str(), "stop");
}

#[test]
fn scripted_generate_cancels_on_break() {
    let mut g = Generation::start(3, 16);
    g.on_piece("a", &vec![]);
    g.on_undecodable();
    g.on_cancel();
    let r = g.finish();
    assert!(r.canceled);
    assert_eq!(r.completion_tokens, 2);
    assert_eq!(r.finish_reason, FinishReason::Length);
    assert_eq!(r.finish_reason.as_str(), "length");
}

#[test]
fn generation_stops_sampling_at_max_tokens() {
    let mut g = Generation::start(4, 2);
    assert!(g.may_sample());
    assert!(!g.on_piece("a", &vec![]));
    assert!(g.may_sample());
    assert!(!g.on_piece("b", &vec![]));
    assert!(!g.may_sample());
    assert_eq!(g.forwarded, 2);
    let r = g.finish();
    assert_eq!(r.completion_tokens, 2);
    assert_eq!(r.finish_reason, FinishReason::Length);
    assert!(!r.canceled);
}

#[test]
fn end_of_generation_token_uses_up_a_sample() {
    let mut g = Generation::start(4, 1);
    g.on_end_of_generation();
    assert!(!g.may_sample());
    assert_eq!(g.sampled, 1);
    let r = g.finish();
    assert_eq!(r.completion_tokens, 0);
    assert_eq!(r.finish_reason, FinishReason::Stop);
}

#[test]
fn constants_have_flarion_prefix() {
    assert!(REQUESTS_TOTAL.starts_with("flarion_"));
    assert!(FIRST_TOKEN_SECONDS.starts_with("flarion_"));
    assert!(BUILD_INFO.starts_with("flarion_"));
    assert!(ROUTE_RULE_MATCHES_TOTAL.starts_with("flarion_"));
    assert!(FALLBACKS_TOTAL.starts_with("flarion_"));
    assert!(ROUTE_EXHAUSTED_TOTAL.starts_with("flarion_"));
    assert!(REQUEST_DURATION_SECONDS.starts_with("flarion_"));
    assert!(PROMPT_TOKENS.starts_with("flarion_"));
    assert!(COMPLETION_TOKENS.starts_with("flarion_"));
}

#[test]
fn detect_device_zero_delegates_to_all_devices_first() {
    let res = detect_device_zero();
    if let Ok(info) = res {
        assert_eq!(info.device_index, 0);
    }
}

#[test]
fn first_device_of_a_list() {
    let v = vec![
        VramInfo { device_index: 0, total_mb: 100, free_mb: 50 },
        VramInfo { device_index: 1, total_mb: 200, free_mb: 10 },
    ];
    let d = first_device(Ok(v)).unwrap();
    assert_eq!(d.total_mb, 100);
    assert!(matches!(first_device(Ok(vec![])), Err(VramDetectError::NoDevices)));
}

#[test]
fn render_mode_from_environment() {
    assert_eq!(choose_mode(true, false, true, Some("truecolor")), RenderMode::NoColor);
    assert_eq!(choose_mode(false, true, true, None), RenderMode::NoColor);
    assert_eq!(choose_mode(false, false, false, Some("24bit")), RenderMode::NoColor);
    assert_eq!(choose_mode(false, false, true, Some("24bit")), RenderMode::TrueColor);
    assert_eq!(choose_mode(false, false, true, Some("256")), RenderMode::Basic16);
    assert_eq!(choose_mode(false, false, true, None), RenderMode::Basic16);
}

#[test]
fn render_truecolor_produces_nonempty_output() {
    // A 2x2 raster: the top-left pixel opaque, the rest transparent.
    let mut data = vec![0u8; 16];
    data[3] = 255;
    assert_eq!(sample_alpha(&data, 2, 0, 0), 255);
    assert_eq!(sample_alpha(&data, 2, 5, 5), 0);
    assert_eq!(colorize(255, RenderMode::TrueColor), Some((0xff, 0x6b, 0x35)));
    assert_eq!(colorize(31, RenderMode::Basic16), None);
    let s = render_cells(&data, 2, 2, RenderMode::TrueColor);
    assert!(!s.is_empty());
    assert!(s.contains('\n'));
    assert_eq!(s, "\x1b[38;2;255;107;53m\u{2580}\x1b[0m \n");
}

#[test]
fn device_count_decides_detection() {
    assert!(matches!(check_device_count(Ok(0)), Err(VramDetectError::NoDevices)));
    assert!(matches!(check_device_count(Ok(3)), Ok(3)));
    assert!(matches!(
        check_device_count(Err(nvml_wrapper::error::NvmlError::Uninitialized)),
        Err(VramDetectError::QueryFailed(nvml_wrapper::error::NvmlError::Uninitialized))
    ));
}

#[test]
fn device_reading_converts_bytes_to_mb() {
    let info = device_reading(2, Ok((8 * 1024 * 1024 * 1024, 3 * 1024 * 1024 + 5))).unwrap();
    assert_eq!(info.device_index, 2);
    assert_eq!(info.total_mb, 8192);
    assert_eq!(info.free_mb, 3);
    assert!(matches!(
        device_reading(0, Err(nvml_wrapper::error::NvmlError::InvalidArg)),
        Err(VramDetectError::QueryFailed(nvml_wrapper::error::NvmlError::InvalidArg))
    ));
}

#[test]
fn stream_sends_role_tokens_then_one_final_chunk() {
    let mut s = StreamSend::new();
    assert!(s.role_offered(true));
    assert!(s.token_offered(true, false));
    assert!(s.token_offered(true, false));
    assert!(s.generation_ended(false));
    assert_eq!(s.phase, SendPhase::Finished);
    assert_eq!(s.tokens_sent, 2);
}

#[test]
fn stream_to_a_gone_client_stops_generation_without_a_final_chunk() {
    let mut early = StreamSend::new();
    assert!(!early.role_offered(false));
    assert_eq!(early.phase, SendPhase::Closed);

    let mut s = StreamSend::new();
    assert!(s.role_offered(true));
    assert!(!s.token_offered(true, true));
    assert!(!s.generation_ended(true));
    assert_eq!(s.phase, SendPhase::Closed);
    assert_eq!(s.tokens_sent, 1);
}
