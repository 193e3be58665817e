//! Decisions the Whisper engine makes around a decode: how much of the
//! dictionary prompt survives the model's budget, which weights are
//! English-only, what language is passed on, and which decoded segments are
//! the model talking to silence.
use vstd::prelude::*;
use crate::text::{
    chars_of, join, join_from, lower_of, non_empty, same_chars, split, string_of, to_lowercase, trim,
    trim_all, trim_range, trimmed_pieces, views,
};

verus! {

/// whisper.cpp keeps at most `n_text_ctx / 2 - 1` prompt tokens, and every
/// Whisper model ships `n_text_ctx = 448`.
pub const MAX_PROMPT_TOKENS: usize = 223;

/// The separator dictionary terms are re-joined with.
pub open spec fn term_sep() -> Seq<char> {
    seq![',', ' ']
}

/// The dictionary terms of a prompt: split on commas, trimmed, empty ones dropped.
pub open spec fn prompt_terms(p: Seq<char>) -> Seq<Seq<char>> {
    non_empty(trim_all(split(p, ',')))
}

/// The last `n` terms, joined with ", ".
pub open spec fn tail_terms(terms: Seq<Seq<char>>, n: int) -> Seq<char> {
    join(terms.skip(terms.len() - n), term_sep())
}

/// `count` may return `r` when handed a string whose characters are `s`.
pub open spec fn counts_to<F: Fn(&str) -> usize>(count: F, s: Seq<char>, r: usize) -> bool {
    exists|x: &str| x@ == s && #[trigger] call_ensures(count, (x,), r)
}

/// `count` may report `s` within `max` tokens.
pub open spec fn fits<F: Fn(&str) -> usize>(count: F, s: Seq<char>, max: usize) -> bool {
    exists|r: usize| #[trigger] counts_to(count, s, r) && r <= max
}

/// `count` may report `s` over `max` tokens.
pub open spec fn overflows<F: Fn(&str) -> usize>(count: F, s: Seq<char>, max: usize) -> bool {
    exists|r: usize| #[trigger] counts_to(count, s, r) && r > max
}

/// `k` is where growing the kept tail one term at a time stops: every tail of
/// 1..=k terms fits, and the tail of k + 1 terms (if there is one) does not.
pub open spec fn kept_terms<F: Fn(&str) -> usize>(
    count: F,
    terms: Seq<Seq<char>>,
    max: usize,
    k: int,
) -> bool {
    &&& 0 <= k <= terms.len()
    &&& forall|n: int| 1 <= n <= k ==> #[trigger] fits(count, tail_terms(terms, n), max)
    &&& k < terms.len() ==> overflows(count, tail_terms(terms, k + 1), max)
}

/// Drops leading dictionary terms until the prompt fits `max_tokens`, so what
/// survives is whole terms from the tail. `count` measures a string in tokens.
///
/// A prompt `count` puts within budget comes back unchanged. Otherwise the
/// result is the longest run of trailing terms, grown one term at a time, that
/// stays within budget at every step, joined with ", ".
pub fn cap_prompt(prompt: &str, max_tokens: usize, count: impl Fn(&str) -> usize) -> (res: String)
    requires
        forall|x: &str| #[trigger] call_requires(count, (x,)),
    ensures
        (res@ == prompt@ && fits(count, prompt@, max_tokens)) || (overflows(
            count,
            prompt@,
            max_tokens,
        ) && exists|k: int|
            kept_terms(count, prompt_terms(prompt@), max_tokens, k) && res@ == tail_terms(
                prompt_terms(prompt@),
                k,
            )),
{
    let whole = count(prompt);
    assert(counts_to(count, prompt@, whole));
    if whole <= max_tokens {
        return prompt.to_owned();
    }
    let chars = chars_of(prompt);
    let terms = trimmed_pieces(&chars, ',');
    let sep: Vec<char> = vec![',', ' '];
    let ghost tv = prompt_terms(prompt@);
    assert(sep@ == term_sep());
    let mut kept: usize = 0;
    while kept < terms.len()
        invariant
            kept <= terms.len(),
            forall|x: &str| #[trigger] call_requires(count, (x,)),
            views(terms@) == tv,
            sep@ == term_sep(),
            forall|m: int| 1 <= m <= kept ==> #[trigger] fits(count, tail_terms(tv, m), max_tokens),
        ensures
            kept <= terms.len(),
            forall|m: int| 1 <= m <= kept ==> #[trigger] fits(count, tail_terms(tv, m), max_tokens),
            kept < terms.len() ==> overflows(count, tail_terms(tv, kept + 1), max_tokens),
        decreases terms.len() - kept,
    {
        let n = kept + 1;
        let candidate = string_of(&join_from(&terms, terms.len() - n, &sep));
        assert(candidate@ == tail_terms(tv, n as int));
        let c = count(candidate.as_str());
        assert(counts_to(count, tail_terms(tv, n as int), c));
        if c > max_tokens {
            break;
        }
        kept = n;
    }
    let res = string_of(&join_from(&terms, terms.len() - kept, &sep));
    assert(res@ == tail_terms(tv, kept as int));
    assert(kept_terms(count, tv, max_tokens, kept as int));
    res
}

/// Whether a path names English-only weights: it ends in `.en.bin`.
pub open spec fn english_only_path(p: Seq<char>) -> bool {
    let n = p.len() as int;
    &&& n >= 7
    &&& p[n - 7] == '.'
    &&& p[n - 6] == 'e'
    &&& p[n - 5] == 'n'
    &&& p[n - 4] == '.'
    &&& p[n - 3] == 'b'
    &&& p[n - 2] == 'i'
    &&& p[n - 1] == 'n'
}

/// whisper.cpp names English-only weights `ggml-<size>.en.bin`; every
/// multilingual build drops the `.en`.
pub fn is_english_only(model_path: &str) -> (r: bool)
    ensures
        r == english_only_path(model_path@),
{
    let v = chars_of(model_path);
    let n = v.len();
    n >= 7 && v[n - 7] == '.' && v[n - 6] == 'e' && v[n - 5] == 'n' && v[n - 4] == '.' && v[n
        - 3] == 'b' && v[n - 2] == 'i' && v[n - 1] == 'n'
}

/// The language to hand Whisper: the user's choice, unless it is "auto"
/// (Whisper detects it) or the weights are English-only (they have no other
/// language to be told about).
pub fn decode_language<'a>(language: Option<&'a str>, english_only: bool) -> (r: Option<&'a str>)
    ensures
        r == match language {
            Some(l) => if l@ != "auto"@ && !english_only {
                Some(l)
            } else {
                None::<&'a str>
            },
            None => None::<&'a str>,
        },
{
    match language {
        Some(l) => {
            if !same_chars(l, "auto") && !english_only {
                Some(l)
            } else {
                None
            }
        },
        None => None,
    }
}

/// How Whisper searches for the transcript.
#[derive(PartialEq, Eq, Structural)]
pub enum Sampling {
    /// Beam search: slower, and better where every token is a close call.
    BeamSearch { beam_size: i32 },
    /// Greedy decoding.
    Greedy { best_of: i32 },
}

/// Whispered audio decodes with a 5-wide beam; everything else greedily.
pub fn sampling_for(whisper_mode: bool) -> (r: Sampling)
    ensures
        whisper_mode ==> (r == Sampling::BeamSearch { beam_size: 5 }),
        !whisper_mode ==> (r == Sampling::Greedy { best_of: 1 }),
{
    if whisper_mode {
        Sampling::BeamSearch { beam_size: 5 }
    } else {
        Sampling::Greedy { best_of: 1 }
    }
}

/// What Whisper says to silence or background noise, in lowercase.
pub open spec fn hallucination_phrase(l: Seq<char>) -> bool {
    ||| l == "and others."@
    ||| l == "thank you."@
    ||| l == "thank you for watching."@
    ||| l == "thanks for watching."@
    ||| l == "subscribe."@
    ||| l == "subscribe to my channel."@
    ||| l == "please subscribe."@
    ||| l == "much of these are the same."@
    ||| l == "amem."@
    ||| l == "amen."@
    ||| l == "."@
    ||| l.len() == 0
}

/// A trimmed segment is a hallucination when its lowercase form is one of
/// the known phrases, or empty.
pub open spec fn is_hallucination(seg: Seq<char>) -> bool {
    hallucination_phrase(lower_of(seg))
}

/// The decoded segments, trimmed, with hallucinations dropped, each followed by a space.
pub open spec fn segment_text(segs: Seq<Seq<char>>) -> Seq<char>
    decreases segs.len(),
{
    if segs.len() == 0 {
        Seq::<char>::empty()
    } else if is_hallucination(trim(segs.last())) {
        segment_text(segs.drop_last())
    } else {
        segment_text(segs.drop_last()) + trim(segs.last()) + seq![' ']
    }
}

/// The transcript Whisper's segments make.
pub open spec fn transcript_of(segs: Seq<Seq<char>>) -> Seq<char> {
    trim(segment_text(segs))
}

/// The string views of a list of strings.
pub open spec fn string_views(v: Seq<String>) -> Seq<Seq<char>> {
    v.map_values(|s: String| s@)
}

fn trimmed(s: &str) -> (r: Vec<char>)
    ensures
        r@ == trim(s@),
{
    let v = chars_of(s);
    let r = trim_range(&v, 0, v.len());
    assert(v@.subrange(0, v.len() as int) =~= v@);
    r
}

/// Whether a decoded segment is Whisper hallucinating on silence.
pub fn segment_is_hallucination(seg: &str) -> (r: bool)
    ensures
        r == is_hallucination(trim(seg@)),
{
    let t = string_of(&trimmed(seg));
    let lower = to_lowercase(t.as_str());
    is_hallucination_phrase(lower.as_str())
}

/// Whether an already trimmed and lowercased segment is one of the phrases
/// Whisper produces on silence, or empty.
pub fn is_hallucination_phrase(lowered: &str) -> (r: bool)
    ensures
        r == (hallucination_phrase(lowered@) || lowered@.len() == 0),
{
    let l = lowered;
    same_chars(l, "and others.") || same_chars(l, "thank you.") || same_chars(
        l,
        "thank you for watching.",
    ) || same_chars(l, "thanks for watching.") || same_chars(l, "subscribe.") || same_chars(
        l,
        "subscribe to my channel.",
    ) || same_chars(l, "please subscribe.") || same_chars(l, "much of these are the same.")
        || same_chars(l, "amem.") || same_chars(l, "amen.") || same_chars(l, ".") || l.is_empty()
}

/// Joins Whisper's decoded segments into the transcript, leaving out the
/// ones that are hallucinations on silence or noise.
pub fn assemble_transcript(segments: &Vec<String>) -> (r: String)
    ensures
        r@ == transcript_of(string_views(segments@)),
{
    let ghost sv = string_views(segments@);
    let mut out: Vec<char> = Vec::new();
    let mut k: usize = 0;
    assert(sv.take(0) =~= Seq::<Seq<char>>::empty());
    while k < segments.len()
        invariant
            k <= segments.len(),
            sv == string_views(segments@),
            out@ == segment_text(sv.take(k as int)),
        decreases segments.len() - k,
    {
        let seg = segments[k].as_str();
        proof {
            assert(sv.take(k + 1).drop_last() =~= sv.take(k as int));
            assert(sv.take(k + 1).last() == seg@);
        }
        if !segment_is_hallucination(seg) {
            let t = trimmed(seg);
            let ghost before = out@;
            let mut i: usize = 0;
            while i < t.len()
                invariant
                    i <= t.len(),
                    out@ == before + t@.take(i as int),
                decreases t.len() - i,
            {
                out.push(t[i]);
                i = i + 1;
                assert(out@ =~= before + t@.take(i as int));
            }
            out.push(' ');
            assert(out@ =~= before + t@ + seq![' ']);
        }
        k = k + 1;
    }
    assert(sv.take(segments.len() as int) =~= sv);
    let r = trim_range(&out, 0, out.len());
    assert(out@.subrange(0, out.len() as int) =~= out@);
    string_of(&r)
}

/// Parakeet decodes long audio in chunks; the transcript is the chunks'
/// texts, trimmed, blank ones dropped, joined by single spaces.
pub fn join_chunk_texts(texts: &Vec<String>) -> (r: String)
    ensures
        r@ == join(non_empty(trim_all(string_views(texts@))), seq![' ']),
{
    let ghost sv = string_views(texts@);
    let mut parts: Vec<Vec<char>> = Vec::new();
    let mut k: usize = 0;
    assert(sv.take(0) =~= Seq::<Seq<char>>::empty());
    while k < texts.len()
        invariant
            k <= texts.len(),
            sv == string_views(texts@),
            views(parts@) == non_empty(trim_all(sv.take(k as int))),
        decreases texts.len() - k,
    {
        let t = trimmed(texts[k].as_str());
        proof {
            let tk = trim_all(sv.take(k + 1));
            assert(tk.drop_last() =~= trim_all(sv.take(k as int)));
            assert(tk.last() == t@);
        }
        if t.len() > 0 {
            parts.push(t);
            assert(views(parts@) =~= views(parts@).drop_last().push(parts@.last()@));
        }
        k = k + 1;
    }
    assert(sv.take(texts.len() as int) =~= sv);
    let mut space: Vec<char> = Vec::new();
    space.push(' ');
    assert(space@ =~= seq![' ']);
    let r = join_from(&parts, 0, &space);
    assert(views(parts@).skip(0) =~= views(parts@));
    string_of(&r)
}

/// How many trailing terms survive when a deterministic count `f` is grown
/// from `n` terms, one term at a time, until the next would bust `max`.
pub open spec fn grown(f: spec_fn(Seq<char>) -> usize, terms: Seq<Seq<char>>, max: usize, n: int) -> int
    decreases terms.len() - n,
{
    if 0 <= n < terms.len() && f(tail_terms(terms, n + 1)) <= max {
        grown(f, terms, max, n + 1)
    } else {
        n
    }
}

/// The prompt `cap_prompt` keeps when the token count is the function `f`.
pub open spec fn capped(f: spec_fn(Seq<char>) -> usize, prompt: Seq<char>, max: usize) -> Seq<char> {
    if f(prompt) <= max {
        prompt
    } else {
        tail_terms(prompt_terms(prompt), grown(f, prompt_terms(prompt), max, 0))
    }
}

proof fn lemma_grown_stops_at(f: spec_fn(Seq<char>) -> usize, terms: Seq<Seq<char>>, max: usize, k: int, n: int)
    requires
        0 <= n <= k <= terms.len(),
        forall|m: int| 1 <= m <= k ==> #[trigger] f(tail_terms(terms, m)) <= max,
        k < terms.len() ==> f(tail_terms(terms, k + 1)) > max,
    ensures
        grown(f, terms, max, n) == k,
    decreases k - n,
{
    if n < k {
        assert(f(tail_terms(terms, n + 1)) <= max);
        lemma_grown_stops_at(f, terms, max, k, n + 1);
    }
}

/// With a token count that is a plain function `f` of the text, `cap_prompt`
/// has exactly one possible result: the prompt itself when it fits, and
/// otherwise the longest tail of whole terms reached by adding one term at a
/// time while each step fits.
pub proof fn law_cap_prompt_is_determined<F: Fn(&str) -> usize>(
    count: F,
    f: spec_fn(Seq<char>) -> usize,
    prompt: Seq<char>,
    max: usize,
    res: Seq<char>,
)
    requires
        forall|x: &str, r: usize| #[trigger] call_ensures(count, (x,), r) ==> r == f(x@),
        (res == prompt && fits(count, prompt, max)) || (overflows(count, prompt, max) && exists|k: int|
            kept_terms(count, prompt_terms(prompt), max, k) && res == tail_terms(prompt_terms(prompt), k)),
    ensures
        res == capped(f, prompt, max),
{
    if res == prompt && fits(count, prompt, max) {
        let r = choose|r: usize| #[trigger] counts_to(count, prompt, r) && r <= max;
        let x = choose|x: &str| x@ == prompt && #[trigger] call_ensures(count, (x,), r);
        assert(f(prompt) <= max);
    } else {
        let r = choose|r: usize| #[trigger] counts_to(count, prompt, r) && r > max;
        let x = choose|x: &str| x@ == prompt && #[trigger] call_ensures(count, (x,), r);
        assert(f(prompt) > max);
        let terms = prompt_terms(prompt);
        let k = choose|k: int| kept_terms(count, terms, max, k) && res == tail_terms(terms, k);
        assert forall|m: int| 1 <= m <= k implies #[trigger] f(tail_terms(terms, m)) <= max by {
            assert(fits(count, tail_terms(terms, m), max));
            let r2 = choose|r2: usize| #[trigger] counts_to(count, tail_terms(terms, m), r2) && r2 <= max;
            let x2 = choose|x2: &str| x2@ == tail_terms(terms, m) && #[trigger] call_ensures(count, (x2,), r2);
        }
        if k < terms.len() {
            let r3 = choose|r3: usize| #[trigger] counts_to(count, tail_terms(terms, k + 1), r3) && r3 > max;
            let x3 = choose|x3: &str| x3@ == tail_terms(terms, k + 1) && #[trigger] call_ensures(count, (x3,), r3);
        }
        lemma_grown_stops_at(f, terms, max, k, 0);
    }
}

} // verus!
