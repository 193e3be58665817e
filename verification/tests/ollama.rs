use patter::ollama::{
    chunk_prompt, cleanup_messages, finalize_analysis, finish_cleanup, json_reply_body,
    progress_message, reduce_prompt, summary_prompts, transcript_chunk_list, MeetingAnalysis,
    CHUNK_SIZE, CLEANUP_EXAMPLES, MEETING_KEYS_CORE, SYSTEM_PROMPT,
};

#[test]
fn cleanup_conversation_is_system_examples_then_transcript() {
    let msgs = cleanup_messages("hello there", Some("Be formal."));
    assert_eq!(msgs.len(), 42);
    assert_eq!(msgs[0].role, "system");
    assert_eq!(
        msgs[0].content,
        format!("{}\n\nAdditional instruction for this context: Be formal.", SYSTEM_PROMPT)
    );
    assert_eq!(msgs[1].role, "user");
    assert_eq!(msgs[1].content, "<transcript>\nUh\n</transcript>");
    assert_eq!(msgs[2].role, "assistant");
    assert_eq!(msgs[2].content, "[EMPTY]");
    assert_eq!(msgs[40].content, CLEANUP_EXAMPLES[19].1);
    assert_eq!(msgs[41].role, "user");
    assert_eq!(msgs[41].content, "<transcript>\nhello there\n</transcript>");
    assert_eq!(cleanup_messages("x", None)[0].content, SYSTEM_PROMPT);
}

#[test]
fn cleanup_replies_are_unwrapped() {
    assert_eq!(finish_cleanup("  Hello, world.  ").unwrap(), "Hello, world.");
    assert_eq!(
        finish_cleanup("<think>reasoning</think>\nHi there.").unwrap(),
        "Hi there."
    );
    assert_eq!(finish_cleanup("Done [EMPTY] now").unwrap(), "Done  now");
    assert_eq!(finish_cleanup("[EMPTY]").unwrap_err(), "Ollama returned empty text");
    assert_eq!(finish_cleanup("<think>x</think>  ").unwrap_err(), "Ollama returned empty text");
    // A single left-to-right pass, as `str::replace` does.
    assert_eq!(finish_cleanup("[EMP[EMPTY]TY]").unwrap(), "[EMPTY]");
}

#[test]
fn json_replies_lose_fences_and_reasoning() {
    assert_eq!(json_reply_body("  {\"a\":1}  "), "{\"a\":1}");
    assert_eq!(json_reply_body("```json\n{\"a\":1}\n```"), "{\"a\":1}");
    assert_eq!(json_reply_body("<think>hm</think> ```\n{}\n``` "), "{}");
    assert_eq!(json_reply_body("```"), "");
    assert_eq!(json_reply_body("{\"x\": \"```\"}"), "{\"x\": \"```\"}");
}

#[test]
fn short_transcripts_are_one_chunk_analysed_whole() {
    let t = "line one\r\nline two\nlast";
    let chunks = transcript_chunk_list(t);
    assert_eq!(chunks, vec!["line one\nline two\nlast\n".to_string()]);
    let prompts = summary_prompts(t);
    assert_eq!(prompts.len(), 1);
    assert_eq!(prompts[0], chunk_prompt(t, true));
    assert!(transcript_chunk_list("").is_empty());
    assert_eq!(summary_prompts("").len(), 1);
}

#[test]
fn long_transcripts_split_between_lines() {
    let line = "a".repeat(5000);
    let t = format!("{line}\n{line}\n{line}\n");
    let chunks = transcript_chunk_list(&t);
    assert_eq!(chunks.len(), 2);
    assert_eq!(chunks[0], format!("{line}\n{line}\n"));
    assert_eq!(chunks[1], format!("{line}\n"));
    assert_eq!(chunks.concat(), t);
    let prompts = summary_prompts(&t);
    assert_eq!(prompts.len(), 2);
    assert_eq!(prompts[1], chunk_prompt(&chunks[1], false));

    // One line longer than the budget still goes whole, in a chunk of its own.
    let big = "b".repeat(CHUNK_SIZE + 10);
    let chunks = transcript_chunk_list(&format!("hi\n{big}"));
    assert_eq!(chunks, vec!["hi\n".to_string(), format!("{big}\n")]);

    // Byte length, not characters: 4000 three-byte characters fill 12000 bytes.
    let wide = "€".repeat(4000);
    assert_eq!(transcript_chunk_list(&format!("{wide}\nx")).len(), 2);
}

#[test]
fn prompts_frame_the_transcript() {
    let p = chunk_prompt("TRANSCRIPT", true);
    assert!(p.starts_with("You are analyzing a meeting transcript"));
    assert!(p.contains("The transcript below is a complete meeting."));
    assert!(p.contains("- \"title\": string"));
    assert!(p.contains(MEETING_KEYS_CORE));
    assert!(p.ends_with("<transcript>\nTRANSCRIPT\n</transcript>\n\nRespond with ONLY the JSON object. No markdown code fences, no explanation before or after."));
    let seg = chunk_prompt("T", false);
    assert!(seg.contains("ONE SEGMENT"));
    assert!(!seg.contains("- \"title\": string"));
    let r = reduce_prompt("[{}]");
    assert!(r.contains("<chunk_analyses>\n[{}]\n</chunk_analyses>"));
    assert!(r.contains(MEETING_KEYS_CORE));
}

#[test]
fn empty_analysis_sections_get_placeholders() {
    let a = finalize_analysis(MeetingAnalysis {
        title: "T".to_string(),
        summary: "S".to_string(),
        minutes: vec![],
        decisions: vec!["Ship it".to_string()],
        action_items: vec![],
    });
    assert_eq!(a.title, "T");
    assert_eq!(a.minutes, vec!["No key discussion points identified.".to_string()]);
    assert_eq!(a.decisions, vec!["Ship it".to_string()]);
    assert_eq!(a.action_items, vec!["[x] No action items were assigned.".to_string()]);
    let b = finalize_analysis(MeetingAnalysis {
        title: String::new(),
        summary: String::new(),
        minutes: vec!["m".to_string()],
        decisions: vec![],
        action_items: vec!["a".to_string()],
    });
    assert_eq!(b.decisions, vec!["No decisions were made.".to_string()]);
}

#[test]
fn summary_progress_lines() {
    assert_eq!(progress_message(1, 1), None);
    assert_eq!(progress_message(2, 4).unwrap(), "Summarizing part 2/3");
    assert_eq!(progress_message(4, 4).unwrap(), "Synthesizing final summary");
    assert_eq!(progress_message(10, 12).unwrap(), "Summarizing part 10/11");
}
