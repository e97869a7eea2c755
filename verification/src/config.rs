//! The decision behind the first-run country prompt.
use crate::text::{chars_of, contains_text, push_all, push_str, string_of, trim, trim_exec, upper, upper_exec};
use vstd::prelude::*;

verus! {

broadcast use crate::lemma_deep_view_chars;

/// What one line typed at the country prompt leads to: a code to use, or
/// the unknown code to report before asking again.
pub enum PromptAnswer {
    Accept(String),
    Retry(String),
}

/// The answer for a typed code (already trimmed and upper-cased): an empty
/// line means the world average, a known code is taken, another is retried.
pub open spec fn spec_prompt_answer(code: Seq<char>, valid: Seq<Seq<char>>) -> (bool, Seq<char>) {
    if code.len() == 0 {
        (true, "WORLD"@)
    } else if valid.contains(code) {
        (true, code)
    } else {
        (false, code)
    }
}

/// Whether the answer is accepted, and the code it carries.
pub open spec fn answer_view(a: PromptAnswer) -> (bool, Seq<char>) {
    match a {
        PromptAnswer::Accept(s) => (true, s@),
        PromptAnswer::Retry(s) => (false, s@),
    }
}

/// The answer for a typed code that is already trimmed and upper-cased.
pub fn prompt_answer_from(code: &Vec<char>, valid: &Vec<String>) -> (r: PromptAnswer)
    ensures
        answer_view(r) == spec_prompt_answer(code@, valid.deep_view()),
{
    if code.len() == 0 {
        return PromptAnswer::Accept(String::from_str("WORLD"));
    }
    let mut known: Vec<Vec<char>> = Vec::new();
    let n = valid.len();
    for i in 0..n
        invariant
            n == valid@.len(),
            known.deep_view() == valid.deep_view().take(i as int),
    {
        crate::push_deep(&mut known, chars_of(valid[i].as_str()));
        assert(known.deep_view() =~= valid.deep_view().take(i + 1));
    }
    assert(valid.deep_view().take(n as int) =~= valid.deep_view());
    if contains_text(&known, code) {
        PromptAnswer::Accept(string_of(code))
    } else {
        PromptAnswer::Retry(string_of(code))
    }
}

/// The answer for one typed line: trimmed, upper-cased, then decided.
pub fn prompt_answer(input: &str, valid: &Vec<String>) -> (r: PromptAnswer)
    ensures
        answer_view(r) == spec_prompt_answer(upper(trim(input@)), valid.deep_view()),
{
    let v = chars_of(input);
    let t = trim_exec(&v);
    let u = upper_exec(&t);
    prompt_answer_from(&u, valid)
}

/// The message for a country code that has no carbon-intensity entry.
pub open spec fn unknown_country_message(code: Seq<char>) -> Seq<char> {
    "Unknown country code '"@ + code
        + "'. Use ISO 3166-1 alpha-3 (e.g. USA, PER, DEU). Use WORLD for global average."@
}

/// The country code to estimate with: the given code upper-cased, where the
/// carbon-intensity table (`known`, its codes) has it; else the error message.
pub fn resolve_country_code(code: &str, known: &Vec<String>) -> (r: Result<String, String>)
    ensures
        match r {
            Ok(c) => c@ == upper(code@) && known.deep_view().contains(upper(code@)),
            Err(m) => m@ == unknown_country_message(upper(code@)) && !known.deep_view().contains(
                upper(code@),
            ),
        },
{
    let u = upper_exec(&chars_of(code));
    let mut table: Vec<Vec<char>> = Vec::new();
    let n = known.len();
    for i in 0..n
        invariant
            n == known@.len(),
            table.deep_view() == known.deep_view().take(i as int),
    {
        crate::push_deep(&mut table, chars_of(known[i].as_str()));
        assert(table.deep_view() =~= known.deep_view().take(i + 1));
    }
    assert(known.deep_view().take(n as int) =~= known.deep_view());
    if contains_text(&table, &u) {
        Ok(string_of(&u))
    } else {
        let mut m: Vec<char> = Vec::new();
        push_str(&mut m, "Unknown country code '");
        push_all(&mut m, &u);
        push_str(&mut m, "'. Use ISO 3166-1 alpha-3 (e.g. USA, PER, DEU). Use WORLD for global average.");
        Err(string_of(&m))
    }
}

/// The prompt settles only on the world average or on a known code; a
/// code it asks again about is a non-empty code that is not known.
pub proof fn law_prompt_settles_on_known_codes(code: Seq<char>, valid: Seq<Seq<char>>)
    ensures
        spec_prompt_answer(code, valid).0 ==> spec_prompt_answer(code, valid).1 == "WORLD"@
            || valid.contains(spec_prompt_answer(code, valid).1),
        !spec_prompt_answer(code, valid).0 ==> spec_prompt_answer(code, valid).1 == code
            && code.len() > 0 && !valid.contains(code),
{
}

} // verus!
