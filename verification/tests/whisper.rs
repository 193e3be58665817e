use patter::whisper::is_hallucination_phrase;
use patter::whisper::{
    assemble_transcript, cap_prompt, decode_language, is_english_only, join_chunk_texts,
    sampling_for, segment_is_hallucination, Sampling, MAX_PROMPT_TOKENS,
};

/// Stands in for Whisper's BPE: close enough to exercise the boundary logic
/// without loading a model.
fn words(s: &str) -> usize {
    s.split_whitespace().count()
}

#[test]
fn english_only_weights_are_recognised_by_filename() {
    for p in ["ggml-tiny.en.bin", "ggml-base.en.bin", "ggml-small.en.bin"] {
        assert!(is_english_only(p), "{p} should be English-only");
        assert!(is_english_only(&format!("/Users/x/models/whisper/{p}")));
    }
    for p in [
        "ggml-tiny.bin",
        "ggml-base.bin",
        "ggml-small.bin",
        "ggml-medium.bin",
        "ggml-large-v3-turbo.bin",
    ] {
        assert!(!is_english_only(p), "{p} should be multilingual");
        assert!(!is_english_only(&format!("/Users/x/models/whisper/{p}")));
    }
}

#[test]
fn short_prompts_pass_through_untouched() {
    let p = "Patter, Ollama, Parakeet";
    assert_eq!(cap_prompt(p, 10, words), p);
}

#[test]
fn long_prompts_keep_whole_terms_from_the_tail() {
    let p = "alpha, bravo, charlie, delta, echo";
    let capped = cap_prompt(p, 2, words);
    assert_eq!(capped, "delta, echo");
    for term in capped.split(", ") {
        assert!(p.split(", ").any(|t| t == term), "{term} is not a whole term");
    }
}

#[test]
fn a_single_oversized_term_does_not_panic_or_return_garbage() {
    let p = "one two three four five";
    assert_eq!(cap_prompt(p, 2, words), "");
}

#[test]
fn empty_and_separator_only_prompts_are_safe() {
    assert_eq!(cap_prompt("", 5, |_| 99), "");
    assert_eq!(cap_prompt(" , , ", 0, |_| 99), "");
}

#[test]
fn the_budget_matches_whispers_documented_limit() {
    assert_eq!(MAX_PROMPT_TOKENS, 448 / 2 - 1);
}

#[test]
fn capped_terms_are_trimmed_and_rejoined_with_comma_space() {
    let p = "  alpha ,bravo,, charlie  ";
    assert_eq!(cap_prompt(p, 2, words), "bravo, charlie");
}

#[test]
fn the_kept_tail_stops_at_the_first_term_that_busts_the_budget() {
    // "b c d" is 3 words: it fits at 3, but the whole prompt (5 words) doesn't.
    let p = "a, b c d";
    assert_eq!(cap_prompt(p, 3, words), "b c d");
    assert_eq!(cap_prompt(p, 2, words), "");
}

#[test]
fn auto_and_english_only_weights_take_no_language() {
    assert_eq!(decode_language(Some("de"), false), Some("de"));
    assert_eq!(decode_language(Some("auto"), false), None);
    assert_eq!(decode_language(Some("de"), true), None);
    assert_eq!(decode_language(None, false), None);
}

#[test]
fn whispered_audio_uses_beam_search() {
    assert!(sampling_for(true) == Sampling::BeamSearch { beam_size: 5 });
    assert!(sampling_for(false) == Sampling::Greedy { best_of: 1 });
}

#[test]
fn hallucinated_segments_are_dropped() {
    assert!(segment_is_hallucination("  Thank you.  "));
    assert!(segment_is_hallucination("AMEN."));
    assert!(segment_is_hallucination("   "));
    assert!(!segment_is_hallucination("Thank you for the update."));
    let segs = vec![
        " Hello there. ".to_string(),
        "Thanks for watching.".to_string(),
        "How are you?".to_string(),
        ".".to_string(),
    ];
    assert_eq!(assemble_transcript(&segs), "Hello there. How are you?");
    assert_eq!(assemble_transcript(&vec!["Subscribe.".to_string()]), "");
}

#[test]
fn parakeet_chunks_join_with_single_spaces() {
    let texts = vec![" first part ".to_string(), "   ".to_string(), "second".to_string()];
    assert_eq!(join_chunk_texts(&texts), "first part second");
    assert_eq!(join_chunk_texts(&vec![]), "");
}

#[test]
fn lowercased_segments_are_checked_against_known_hallucinations() {
    assert!(is_hallucination_phrase("thank you."));
    assert!(is_hallucination_phrase(""));
    assert!(!is_hallucination_phrase("Thank you."));
    assert!(!is_hallucination_phrase("thank you all."));
}
