//! What the demo server's text tools, prompts and resource templates
//! compute. (Its calculator tools work on floating point numbers and are
//! not part of this library.)

use vstd::prelude::*;
use vstd::string::StringSliceAdditionalSpecFns;
use crate::text::{chars_of, concat, decimal, str_eq, string_from_chars, strip_prefix, to_string, usize_to_decimal};
use crate::types::{CallToolResult, Content, GetPromptResult, PromptMessage, content_texts};

verus! {

/// The JSON Schema of the two-operand calculator tools.
pub open spec fn spec_binary_schema() -> Seq<char> {
    "{\"type\":\"object\",\"properties\":{\"a\":{\"type\":\"number\",\"description\":\"First operand\"},\"b\":{\"type\":\"number\",\"description\":\"Second operand\"}},\"required\":[\"a\",\"b\"]}"@
}

/// The JSON Schema of the text tools.
pub open spec fn spec_text_schema() -> Seq<char> {
    "{\"type\":\"object\",\"properties\":{\"text\":{\"type\":\"string\",\"description\":\"Input text\"}},\"required\":[\"text\"]}"@
}

pub fn binary_schema() -> (s: String)
    ensures
        s@ == spec_binary_schema(),
{
    "{\"type\":\"object\",\"properties\":{\"a\":{\"type\":\"number\",\"description\":\"First operand\"},\"b\":{\"type\":\"number\",\"description\":\"Second operand\"}},\"required\":[\"a\",\"b\"]}".to_owned()
}

pub fn text_schema() -> (s: String)
    ensures
        s@ == spec_text_schema(),
{
    "{\"type\":\"object\",\"properties\":{\"text\":{\"type\":\"string\",\"description\":\"Input text\"}},\"required\":[\"text\"]}".to_owned()
}

/// The characters of `text` in reverse order.
pub fn reverse_text(text: &str) -> (r: String)
    ensures
        r@ == text@.reverse(),
{
    let v = chars_of(text);
    let mut out: Vec<char> = Vec::new();
    let mut i: usize = v.len();
    while i > 0
        invariant
            i <= v@.len(),
            out@ == v@.reverse().take((v@.len() - i) as int),
        decreases i,
    {
        i = i - 1;
        out.push(v[i]);
        assert(out@ =~= v@.reverse().take((v@.len() - i) as int));
    }
    assert(v@.reverse().take(v@.len() as int) =~= v@.reverse());
    string_from_chars(&out)
}

/// Unicode's White_Space property, which `char::is_whitespace` tests.
pub open spec fn is_white_space(c: char) -> bool {
    ||| ('\u{9}' <= c && c <= '\u{d}')
    ||| c == ' '
    ||| c == '\u{85}'
    ||| c == '\u{a0}'
    ||| c == '\u{1680}'
    ||| ('\u{2000}' <= c && c <= '\u{200a}')
    ||| c == '\u{2028}'
    ||| c == '\u{2029}'
    ||| c == '\u{202f}'
    ||| c == '\u{205f}'
    ||| c == '\u{3000}'
}

pub fn is_whitespace(c: char) -> (b: bool)
    ensures
        b == is_white_space(c),
{
    ('\u{9}' <= c && c <= '\u{d}') || c == ' ' || c == '\u{85}' || c == '\u{a0}' || c == '\u{1680}'
        || ('\u{2000}' <= c && c <= '\u{200a}') || c == '\u{2028}' || c == '\u{2029}'
        || c == '\u{202f}' || c == '\u{205f}' || c == '\u{3000}'
}

/// The number of words of `s`: maximal runs of characters that are not
/// white space (what `split_whitespace` yields).
pub open spec fn word_count_of(s: Seq<char>) -> nat
    decreases s.len(),
{
    if s.len() == 0 {
        0
    } else {
        word_count_of(s.drop_last()) + (if !is_white_space(s.last()) && (s.len() == 1 || is_white_space(s[s.len() - 2])) {
            1nat
        } else {
            0nat
        })
    }
}

pub proof fn lemma_word_count_bound(s: Seq<char>)
    ensures
        word_count_of(s) <= s.len(),
    decreases s.len(),
{
    if s.len() > 0 {
        lemma_word_count_bound(s.drop_last());
    }
}

/// A text with no white space and at least one character is one word.
pub proof fn law_word_count_of_one_word(w: Seq<char>)
    requires
        w.len() > 0,
        forall|i: int| 0 <= i < w.len() ==> !is_white_space(#[trigger] w[i]),
    ensures
        word_count_of(w) == 1,
    decreases w.len(),
{
    assert(!is_white_space(w[w.len() - 1]));
    if w.len() > 1 {
        let d = w.drop_last();
        assert forall|i: int| 0 <= i < d.len() implies !is_white_space(#[trigger] d[i]) by {
            assert(d[i] == w[i]);
        }
        law_word_count_of_one_word(d);
        assert(!is_white_space(w[w.len() - 2]));
    } else {
        assert(word_count_of(w.drop_last()) == 0);
    }
}

/// A text made only of white space holds no word.
pub proof fn law_word_count_of_white_space(s: Seq<char>)
    requires
        forall|i: int| 0 <= i < s.len() ==> is_white_space(#[trigger] s[i]),
    ensures
        word_count_of(s) == 0,
    decreases s.len(),
{
    if s.len() > 0 {
        let d = s.drop_last();
        assert forall|i: int| 0 <= i < d.len() implies is_white_space(#[trigger] d[i]) by {
            assert(d[i] == s[i]);
        }
        law_word_count_of_white_space(d);
        assert(is_white_space(s[s.len() - 1]));
    }
}

/// A white-space character splits a text: the words of `a`, then `c`, then
/// `b`, are the words of `a` and the words of `b`.
pub proof fn law_word_count_split(a: Seq<char>, c: char, b: Seq<char>)
    requires
        is_white_space(c),
    ensures
        word_count_of(a + seq![c] + b) == word_count_of(a) + word_count_of(b),
    decreases b.len(),
{
    let s = a + seq![c] + b;
    if b.len() == 0 {
        assert(s.drop_last() =~= a);
    } else {
        let b0 = b.drop_last();
        assert(s.drop_last() =~= a + seq![c] + b0);
        law_word_count_split(a, c, b0);
        assert(s.last() == b.last());
        if b.len() == 1 {
            assert(s[s.len() - 2] == c);
        } else {
            assert(s[s.len() - 2] == b[b.len() - 2]);
        }
    }
}

/// The number of words in `text`.
pub fn word_count(text: &str) -> (n: usize)
    ensures
        n == word_count_of(text@),
{
    let v = chars_of(text);
    let mut n: usize = 0;
    let mut prev_ws = true;
    let mut i: usize = 0;
    while i < v.len()
        invariant
            i <= v@.len(),
            n == word_count_of(v@.take(i as int)),
            i > 0 ==> prev_ws == is_white_space(v@[i - 1]),
            i == 0 ==> prev_ws,
        decreases v@.len() - i,
    {
        proof {
            assert(v@.take(i + 1).drop_last() =~= v@.take(i as int));
            lemma_word_count_bound(v@.take(i as int));
        }
        let c = v[i];
        let ws = is_whitespace(c);
        if !ws && prev_ws {
            n = n + 1;
        }
        prev_ws = ws;
        i = i + 1;
    }
    assert(v@.take(v@.len() as int) =~= v@);
    n
}

/// The `uppercase` of a string, as `str::to_uppercase` computes it.
pub uninterp spec fn uppercase_of(s: Seq<char>) -> Seq<char>;

/// The `lowercase` of a string, as `str::to_lowercase` computes it.
pub uninterp spec fn lowercase_of(s: Seq<char>) -> Seq<char>;

/// `str::to_uppercase`: Unicode's uppercase mapping of each character.
/// Claimed: the result depends on the characters of `s` alone (named
/// `uppercase_of`).
#[verifier::external_body]
fn to_uppercase(s: &str) -> (r: String)
    ensures
        r@ == uppercase_of(s@),
{
    s.to_uppercase()
}

/// `str::to_lowercase`: Unicode's lowercase mapping of each character.
/// Claimed: the result depends on the characters of `s` alone (named
/// `lowercase_of`).
#[verifier::external_body]
fn to_lowercase(s: &str) -> (r: String)
    ensures
        r@ == lowercase_of(s@),
{
    s.to_lowercase()
}

/// The `uppercase` tool: the text in upper case.
pub fn uppercase_tool(text: &str) -> (r: CallToolResult)
    ensures
        content_texts(r.content@) == seq![uppercase_of(text@)],
        !r.is_error,
{
    CallToolResult::text(to_uppercase(text))
}

/// The `lowercase` tool: the text in lower case.
pub fn lowercase_tool(text: &str) -> (r: CallToolResult)
    ensures
        content_texts(r.content@) == seq![lowercase_of(text@)],
        !r.is_error,
{
    CallToolResult::text(to_lowercase(text))
}

/// The `reverse` tool: the characters of the text in reverse order.
pub fn reverse_tool(text: &str) -> (r: CallToolResult)
    ensures
        content_texts(r.content@) == seq![text@.reverse()],
        !r.is_error,
{
    CallToolResult::text(reverse_text(text))
}

/// The `word_count` tool: the number of words, in decimal.
pub fn word_count_tool(text: &str) -> (r: CallToolResult)
    ensures
        content_texts(r.content@) == seq![decimal(word_count_of(text@))],
        !r.is_error,
{
    CallToolResult::text(usize_to_decimal(word_count(text)))
}

/// The `echo` tool: the message, then its length in bytes (UTF-8).
pub fn echo_tool(message: &str) -> (r: CallToolResult)
    ensures
        content_texts(r.content@) == seq![
            "You said: "@ + message@,
            "Length: "@ + decimal((message.spec_bytes().len() as usize) as nat) + " chars"@,
        ],
        !r.is_error,
{
    let first = concat("You said: ", message);
    let len = usize_to_decimal(message.len());
    let second = concat(concat("Length: ", len.as_str()).as_str(), " chars");
    let ghost f = first@;
    let ghost g = second@;
    let mut content: Vec<Content> = Vec::new();
    content.push(Content::Text(first));
    content.push(Content::Text(second));
    assert(content_texts(content@) =~= seq![f, g]);
    let r = CallToolResult::new(content);
    assert(content_texts(r.content@) =~= seq![
        "You said: "@ + message@,
        "Length: "@ + decimal((message.spec_bytes().len() as usize) as nat) + " chars"@,
    ]);
    r
}

/// The value of the first argument named `k`, if any.
pub open spec fn spec_arg(args: Seq<(String, String)>, k: Seq<char>) -> Option<Seq<char>>
    decreases args.len(),
{
    if args.len() == 0 {
        None
    } else if args[0].0@ == k {
        Some(args[0].1@)
    } else {
        spec_arg(args.drop_first(), k)
    }
}

/// The value of argument `k`, or `default` when it is missing.
pub open spec fn spec_arg_or(args: Seq<(String, String)>, k: Seq<char>, default: Seq<char>) -> Seq<char> {
    match spec_arg(args, k) {
        Some(v) => v,
        None => default,
    }
}

/// The value of argument `key`, or `default` when it is missing.
pub fn arg_or(args: &Vec<(String, String)>, key: &str, default: &str) -> (r: String)
    ensures
        r@ == spec_arg_or(args@, key@, default@),
{
    let mut i: usize = 0;
    assert(args@.skip(0) =~= args@);
    while i < args.len()
        invariant
            i <= args@.len(),
            spec_arg(args@, key@) == spec_arg(args@.skip(i as int), key@),
        decreases args@.len() - i,
    {
        assert(args@.skip(i as int)[0] == args@[i as int]);
        assert(args@.skip(i as int).drop_first() =~= args@.skip(i + 1));
        if str_eq(args[i].0.as_str(), key) {
            return args[i].1.clone();
        }
        i = i + 1;
    }
    assert(args@.skip(i as int).len() == 0);
    to_string(default)
}

pub open spec fn message_texts(ms: Seq<PromptMessage>) -> Seq<Seq<char>> {
    ms.map_values(|m: PromptMessage| m.text@)
}

fn single_user_message(text: String) -> (ms: Vec<PromptMessage>)
    ensures
        message_texts(ms@) == seq![text@],
        ms@.len() == 1,
        ms@[0].role is User,
{
    let mut ms: Vec<PromptMessage> = Vec::new();
    ms.push(PromptMessage::user(text));
    assert(message_texts(ms@) =~= seq![text@]);
    ms
}

/// The `code-review` prompt: asks to review `code` (default empty) written
/// in `language` (default `unknown`).
pub fn code_review_prompt(args: &Vec<(String, String)>) -> (r: GetPromptResult)
    ensures
        ({
            let code = spec_arg_or(args@, "code"@, ""@);
            let lang = spec_arg_or(args@, "language"@, "unknown"@);
            &&& r.description matches Some(d) && d@ == "Code review for "@ + lang + " code"@
            &&& message_texts(r.messages@) == seq![
                "Please review the following "@ + lang
                    + " code for:\n1. Potential bugs and errors\n2. Performance improvements\n3. Code style and best practices\n4. Security vulnerabilities\n\n```"@
                    + lang + "\n"@ + code + "\n```"@]
            &&& r.messages@[0].role is User
        }),
{
    let code = arg_or(args, "code", "");
    let lang = arg_or(args, "language", "unknown");
    let description = concat(concat("Code review for ", lang.as_str()).as_str(), " code");
    let mut text = concat("Please review the following ", lang.as_str());
    text = concat(text.as_str(), " code for:\n1. Potential bugs and errors\n2. Performance improvements\n3. Code style and best practices\n4. Security vulnerabilities\n\n```");
    text = concat(text.as_str(), lang.as_str());
    text = concat(text.as_str(), "\n");
    text = concat(text.as_str(), code.as_str());
    text = concat(text.as_str(), "\n```");
    GetPromptResult { description: Some(description), messages: single_user_message(text) }
}

/// The `summarize` prompt: asks to summarize `text` (default empty) in at
/// most `max_sentences` (default `3`) sentences.
pub fn summarize_prompt(args: &Vec<(String, String)>) -> (r: GetPromptResult)
    ensures
        ({
            let text = spec_arg_or(args@, "text"@, ""@);
            let max = spec_arg_or(args@, "max_sentences"@, "3"@);
            &&& r.description matches Some(d) && d@ == "Text summarization"@
            &&& message_texts(r.messages@) == seq![
                "Please summarize the following text in "@ + max + " sentences or fewer:\n\n"@ + text]
            &&& r.messages@[0].role is User
        }),
{
    let text = arg_or(args, "text", "");
    let max = arg_or(args, "max_sentences", "3");
    let mut msg = concat("Please summarize the following text in ", max.as_str());
    msg = concat(msg.as_str(), " sentences or fewer:\n\n");
    msg = concat(msg.as_str(), text.as_str());
    GetPromptResult { description: Some("Text summarization".to_owned()), messages: single_user_message(msg) }
}

/// The `translate` prompt: asks to translate `text` (default empty) to
/// `target_language` (default `English`).
pub fn translate_prompt(args: &Vec<(String, String)>) -> (r: GetPromptResult)
    ensures
        ({
            let text = spec_arg_or(args@, "text"@, ""@);
            let target = spec_arg_or(args@, "target_language"@, "English"@);
            &&& r.description matches Some(d) && d@ == "Translation to "@ + target
            &&& message_texts(r.messages@) == seq![
                "Please translate the following text to "@ + target + ":\n\n"@ + text]
            &&& r.messages@[0].role is User
        }),
{
    let text = arg_or(args, "text", "");
    let target = arg_or(args, "target_language", "English");
    let description = concat("Translation to ", target.as_str());
    let mut msg = concat("Please translate the following text to ", target.as_str());
    msg = concat(msg.as_str(), ":\n\n");
    msg = concat(msg.as_str(), text.as_str());
    GetPromptResult { description: Some(description), messages: single_user_message(msg) }
}

/// The id a templated URI names: what follows `prefix`, or `unknown` when
/// the URI does not start with it.
pub open spec fn spec_id_after(uri: Seq<char>, prefix: Seq<char>) -> Seq<char> {
    if prefix.is_prefix_of(uri) { uri.skip(prefix.len() as int) } else { "unknown"@ }
}

pub fn id_after(uri: &str, prefix: &str) -> (id: String)
    ensures
        id@ == spec_id_after(uri@, prefix@),
{
    match strip_prefix(uri, prefix) {
        Some(rest) => rest,
        None => "unknown".to_owned(),
    }
}

/// A simulated user profile (`user://{id}`).
pub struct UserProfile {
    pub id: String,
    pub name: String,
    pub email: String,
    pub role: String,
}

/// The profile of the user that `uri` names: user `1` is the admin.
pub fn user_profile(uri: &str) -> (p: UserProfile)
    ensures
        ({
            let id = spec_id_after(uri@, "user://"@);
            &&& p.id@ == id
            &&& p.name@ == "User "@ + id
            &&& p.email@ == "user"@ + id + "@example.com"@
            &&& p.role@ == (if id == "1"@ { "admin"@ } else { "user"@ })
        }),
{
    let id = id_after(uri, "user://");
    let name = concat("User ", id.as_str());
    let email = concat(concat("user", id.as_str()).as_str(), "@example.com");
    let role = if str_eq(id.as_str(), "1") { "admin".to_owned() } else { "user".to_owned() };
    UserProfile { id, name, email, role }
}

/// A simulated document (`doc://{id}`).
pub struct DocumentInfo {
    pub id: String,
    pub title: String,
    pub content: String,
    pub author: String,
}

/// The document that `uri` names.
pub fn document_info(uri: &str) -> (d: DocumentInfo)
    ensures
        ({
            let id = spec_id_after(uri@, "doc://"@);
            &&& d.id@ == id
            &&& d.title@ == "Document "@ + id
            &&& d.content@ == "This is the content of document "@ + id + "."@
            &&& d.author@ == "System"@
        }),
{
    let id = id_after(uri, "doc://");
    let title = concat("Document ", id.as_str());
    let content = concat(concat("This is the content of document ", id.as_str()).as_str(), ".");
    DocumentInfo { id, title, content, author: "System".to_owned() }
}

} // verus!
