//! The request that asks the language model for an English translation.
use vstd::prelude::*;
use vstd::string::*;

verus! {

/// The text before the words to translate.
pub open spec fn translation_preamble() -> Seq<char> {
    "Please translate user input into English.\n            Please response with translated text only, do not contain anything else.\n            If input is English, response with input directly.\n            The following text between ``` is user's input.\n            ```\n            "@
}

/// The text after the words to translate.
pub open spec fn translation_closing() -> Seq<char> {
    "\n            ```"@
}

/// The instruction that asks for the English translation of `words`.
pub fn translation_prompt(words: &str) -> (res: String)
    ensures
        res@ == translation_preamble() + words@ + translation_closing(),
{
    let mut res = String::from_str(
        "Please translate user input into English.\n            Please response with translated text only, do not contain anything else.\n            If input is English, response with input directly.\n            The following text between ``` is user's input.\n            ```\n            ",
    );
    res.append(words);
    res.append("\n            ```");
    res
}

/// A request for a translation.
pub struct TranslationRequest {
    pub model: String,
    pub stream: bool,
    pub prompt: String,
}

/// The model that translates.
pub open spec fn translation_model() -> Seq<char> {
    "qwen2:7b-instruct-q4_0"@
}

/// The request, without streaming, for the English translation of `words`.
pub fn translation_request(words: &str) -> (res: TranslationRequest)
    ensures
        res.model@ == translation_model(),
        !res.stream,
        res.prompt@ == translation_preamble() + words@ + translation_closing(),
{
    TranslationRequest {
        model: String::from_str("qwen2:7b-instruct-q4_0"),
        stream: false,
        prompt: translation_prompt(words),
    }
}

} // verus!
