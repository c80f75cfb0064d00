//! The install script of a bundle (`_install.sql`): its template is read
//! as UTF-8 or, failing that, as Windows-1251; the line that defines
//! `PREFIX` is pointed at the bundle's directory; one `@"&PREFIX\<file>"`
//! line per SQL script is appended; and the result is written back in
//! Windows-1251.

use vstd::prelude::*;
use vstd::string::*;
use vstd::utf8::*;
use crate::text::{push_char, push_text};

verus! {

/// The line of the install script that runs one SQL script of the bundle:
/// `@"&PREFIX\<name>"` followed by CR LF.
pub open spec fn install_entry(name: Seq<char>) -> Seq<char> {
    seq!['@', '"', '&', 'P', 'R', 'E', 'F', 'I', 'X', '\\'] + name + seq!['"', '\r', '\n']
}

/// The lines that run the given SQL scripts, in order.
pub open spec fn install_list(names: Seq<Seq<char>>) -> Seq<char>
    decreases names.len(),
{
    if names.len() == 0 {
        seq![]
    } else {
        install_list(names.drop_last()) + install_entry(names.last())
    }
}

/// The definition of `PREFIX` that points at a bundle's directory:
/// `define PREFIX="<dir>"`.
pub open spec fn prefix_definition(dir: Seq<char>) -> Seq<char> {
    seq!['d', 'e', 'f', 'i', 'n', 'e', ' ', 'P', 'R', 'E', 'F', 'I', 'X', '=', '"'] + dir + seq!['"']
}

/// The regular expression of the line that defines `PREFIX` in the template.
pub open spec fn prefix_line_pattern() -> Seq<char> {
    "(?m)^define PREFIX=.*$"@
}

/// Errors of building an install script.
pub enum ScriptError {
    /// The script is too long to be encoded.
    TooLong,
}

/// The line that runs one SQL script: `@"&PREFIX\<name>"` and CR LF.
pub fn install_entry_line(name: &str) -> (res: String)
    ensures
        res@ == install_entry(name@),
{
    let mut s = String::new();
    push_char(&mut s, '@');
    push_char(&mut s, '"');
    push_char(&mut s, '&');
    push_char(&mut s, 'P');
    push_char(&mut s, 'R');
    push_char(&mut s, 'E');
    push_char(&mut s, 'F');
    push_char(&mut s, 'I');
    push_char(&mut s, 'X');
    push_char(&mut s, '\\');
    push_text(&mut s, name);
    push_char(&mut s, '"');
    push_char(&mut s, '\r');
    push_char(&mut s, '\n');
    assert(s@ =~= install_entry(name@));
    s
}

/// The lines that run the given SQL scripts, one per script, in order.
pub fn install_list_text(names: &Vec<String>) -> (res: String)
    ensures
        res@ == install_list(names.deep_view()),
{
    let mut s = String::new();
    let mut i: usize = 0;
    while i < names.len()
        invariant
            0 <= i <= names@.len(),
            s@ == install_list(names.deep_view().take(i as int)),
        decreases names@.len() - i,
    {
        assert(names.deep_view().take(i + 1).drop_last() =~= names.deep_view().take(i as int));
        let line = install_entry_line(names[i].as_str());
        push_text(&mut s, line.as_str());
        i = i + 1;
    }
    assert(names.deep_view().take(i as int) =~= names.deep_view());
    s
}

/// The definition of `PREFIX` for a bundle's directory.
pub fn prefix_definition_line(dir: &str) -> (res: String)
    ensures
        res@ == prefix_definition(dir@),
{
    let mut s = String::new();
    push_char(&mut s, 'd');
    push_char(&mut s, 'e');
    push_char(&mut s, 'f');
    push_char(&mut s, 'i');
    push_char(&mut s, 'n');
    push_char(&mut s, 'e');
    push_char(&mut s, ' ');
    push_char(&mut s, 'P');
    push_char(&mut s, 'R');
    push_char(&mut s, 'E');
    push_char(&mut s, 'F');
    push_char(&mut s, 'I');
    push_char(&mut s, 'X');
    push_char(&mut s, '=');
    push_char(&mut s, '"');
    push_text(&mut s, dir);
    push_char(&mut s, '"');
    assert(s@ =~= prefix_definition(dir@));
    s
}

/// Whether `regex::Regex::new` accepts a pattern.
pub uninterp spec fn regex_accepts(pattern: Seq<char>) -> bool;

/// What `regex::Regex::replace` gives back: `haystack` with its leftmost-first
/// match of `pattern` replaced by `replacement`, `$` references expanded.
pub uninterp spec fn regex_replace_first(pattern: Seq<char>, haystack: Seq<char>, replacement: Seq<char>) -> Seq<char>;

/// The start of the line that defines `PREFIX`: `define PREFIX=`.
pub open spec fn prefix_keyword() -> Seq<char> {
    seq!['d', 'e', 'f', 'i', 'n', 'e', ' ', 'P', 'R', 'E', 'F', 'I', 'X', '=']
}

/// Whether a line of `t` that starts with `define PREFIX=` begins at `p`:
/// `p` is the start of `t` or follows a line feed.
pub open spec fn starts_prefix_line(t: Seq<char>, p: int) -> bool {
    &&& 0 <= p
    &&& p == 0 || t[p - 1] == '\n'
    &&& p + prefix_keyword().len() <= t.len()
    &&& t.subrange(p, p + prefix_keyword().len()) == prefix_keyword()
}

/// The first position from `p` on where a `PREFIX` line begins, or -1.
pub open spec fn first_prefix_line(t: Seq<char>, p: int) -> int
    decreases t.len() - p,
{
    if p < 0 || p >= t.len() {
        -1
    } else if starts_prefix_line(t, p) {
        p
    } else {
        first_prefix_line(t, p + 1)
    }
}

/// The position of the first line feed from `q` on, or the length of `t`.
pub open spec fn line_end(t: Seq<char>, q: int) -> int
    decreases t.len() - q,
{
    if q < 0 || q >= t.len() {
        t.len() as int
    } else if t[q] == '\n' {
        q
    } else {
        line_end(t, q + 1)
    }
}

/// `t` with its first line that starts with `define PREFIX=` replaced by
/// `rep`, up to its line feed, which stays (a carriage return before it
/// goes with the line); `t` itself when there is no such line.
pub open spec fn replace_prefix_line(t: Seq<char>, rep: Seq<char>) -> Seq<char> {
    let p = first_prefix_line(t, 0);
    if p < 0 {
        t
    } else {
        t.subrange(0, p) + rep + t.subrange(line_end(t, p + prefix_keyword().len()), t.len() as int)
    }
}

/// Compiles `pattern` (`regex::Regex::new`) and replaces the first match in
/// `haystack` by `replacement` (`regex::Regex::replace`). The contract names
/// both results as functions of the arguments. For the pattern of the
/// `PREFIX` line it states what the regex syntax documentation gives: the
/// pattern is valid and small, so it compiles; and for a replacement
/// without `$`, under `(?m)`, `^` matches at the start of the text and after
/// a line feed, `.` any character but a line feed, `$` before a line feed
/// or at the end; the leftmost match is replaced, the replacement taken as
/// it is.
#[verifier::external_body]
fn replace_first_match(pattern: &str, haystack: &str, replacement: &str) -> (res: Option<String>)
    ensures
        res is Some <==> regex_accepts(pattern@),
        pattern@ == prefix_line_pattern() ==> res is Some,
        res matches Some(s) ==> s@ == regex_replace_first(pattern@, haystack@, replacement@),
        res matches Some(s) ==> (pattern@ == prefix_line_pattern() && !replacement@.contains('$')
            ==> s@ == replace_prefix_line(haystack@, replacement@)),
{
    match regex::Regex::new(pattern) {
        Ok(re) => Some(re.replace(haystack, replacement).into_owned()),
        Err(_) => None,
    }
}

/// The template with its `PREFIX` line pointed at `dir`.
pub open spec fn prefixed_template(template: Seq<char>, dir: Seq<char>) -> Seq<char> {
    regex_replace_first(prefix_line_pattern(), template, prefix_definition(dir))
}

/// The install script made from a template: the `PREFIX` line replaced by
/// the definition for `dir`, and the lines for `names` appended.
pub open spec fn rewritten_script(template: Seq<char>, dir: Seq<char>, names: Seq<Seq<char>>) -> Seq<char> {
    prefixed_template(template, dir) + install_list(names)
}

/// The install script when `dir` holds no `$`: the first line that starts
/// with `define PREFIX=` becomes the definition for `dir`.
pub open spec fn plain_rewritten_script(template: Seq<char>, dir: Seq<char>, names: Seq<Seq<char>>) -> Seq<char> {
    replace_prefix_line(template, prefix_definition(dir)) + install_list(names)
}

proof fn lemma_definition_without_dollar(dir: Seq<char>)
    requires
        !dir.contains('$'),
    ensures
        !prefix_definition(dir).contains('$'),
{
    let d = prefix_definition(dir);
    if d.contains('$') {
        let j = choose|j: int| 0 <= j < d.len() && d[j] == '$';
        if 15 <= j < 15 + dir.len() {
            assert(d[j] == dir[j - 15]);
        }
    }
}

/// Points the `PREFIX` line of a template at `dir`.
pub fn prefix_template(template: &str, dir: &str) -> (res: String)
    ensures
        res@ == prefixed_template(template@, dir@),
        !dir@.contains('$') ==> res@ == replace_prefix_line(template@, prefix_definition(dir@)),
{
    let definition = prefix_definition_line(dir);
    proof {
        if !dir@.contains('$') {
            lemma_definition_without_dollar(dir@);
        }
    }
    match replace_first_match("(?m)^define PREFIX=.*$", template, definition.as_str()) {
        Some(s) => s,
        None => {
            assert(false);
            String::new()
        },
    }
}

/// Appends the lines that run the SQL scripts `names` to a template whose
/// `PREFIX` line is already set.
pub fn finish_script(prefixed: &str, names: &Vec<String>) -> (res: String)
    ensures
        res@ == prefixed@ + install_list(names.deep_view()),
{
    let mut out = prefixed.to_owned();
    let list = install_list_text(names);
    push_text(&mut out, list.as_str());
    out
}

/// Points the `PREFIX` line of a template at `dir` and appends the lines
/// that run the SQL scripts `names`.
pub fn rewrite_script(template: &str, dir: &str, names: &Vec<String>) -> (res: String)
    ensures
        res@ == rewritten_script(template@, dir@, names.deep_view()),
        !dir@.contains('$') ==> res@ == plain_rewritten_script(template@, dir@, names.deep_view()),
{
    let prefixed = prefix_template(template, dir);
    finish_script(prefixed.as_str(), names)
}

/// Reads bytes as UTF-8 (`std::str::from_utf8`): the text exactly when the
/// bytes are valid UTF-8.
#[verifier::external_body]
fn utf8_text(bytes: &[u8]) -> (res: Option<&str>)
    ensures
        res is Some <==> valid_utf8(bytes@),
        res matches Some(s) ==> s@ == decode_utf8(bytes@),
{
    std::str::from_utf8(bytes).ok()
}

/// What Windows-1251 decoding gives for some bytes.
pub uninterp spec fn windows_1251_decoded(bytes: Seq<u8>) -> Seq<char>;

/// Decodes bytes as Windows-1251 with BOM sniffing
/// (`encoding_rs::Encoding::decode` on `WINDOWS_1251`). The contract names
/// the text as a function of the bytes; the bound on the length keeps the
/// decoder's buffer size (up to three bytes out per byte in, plus the BOM
/// allowance) within `isize`, beyond which it would panic.
#[verifier::external_body]
fn decode_windows_1251(bytes: &[u8]) -> (res: String)
    requires
        bytes@.len() <= usize::MAX / 8,
    ensures
        res@ == windows_1251_decoded(bytes@),
{
    let (text, _, _) = encoding_rs::WINDOWS_1251.decode(bytes);
    text.into_owned()
}

/// What Windows-1251 encoding gives for a text.
pub uninterp spec fn windows_1251_encoded(text: Seq<char>) -> Seq<u8>;

/// The largest script, in UTF-8 bytes, that is encoded: a numeric
/// character reference takes at most 3.5 bytes per byte of input and the
/// encoder rounds its buffer up to a power of two, so this keeps every
/// buffer within `isize`.
pub open spec fn max_script_bytes() -> nat {
    (usize::MAX / 32) as nat
}

/// Encodes a text in Windows-1251, unmappable characters as numeric
/// character references (`encoding_rs::Encoding::encode` on `WINDOWS_1251`).
/// The contract names the bytes as a function of the text and states what
/// the documentation states for ASCII input: it comes back as it is. The
/// bound on the length keeps the encoder's buffer size from overflowing.
#[verifier::external_body]
fn encode_windows_1251(text: &str) -> (res: Vec<u8>)
    requires
        text.spec_bytes().len() <= max_script_bytes(),
    ensures
        res@ == windows_1251_encoded(text@),
        is_ascii_chars(text@) ==> res@ == text.spec_bytes(),
{
    let (bytes, _, _) = encoding_rs::WINDOWS_1251.encode(text);
    bytes.into_owned()
}

/// The text of a template file: its bytes as UTF-8 when they are valid
/// UTF-8, else as Windows-1251.
pub open spec fn template_text(bytes: Seq<u8>) -> Seq<char> {
    if valid_utf8(bytes) {
        decode_utf8(bytes)
    } else {
        windows_1251_decoded(bytes)
    }
}

/// Reads the bytes of a template file as text: UTF-8 when they are valid
/// UTF-8, else Windows-1251.
pub fn decode_template(bytes: &[u8]) -> (res: String)
    requires
        !valid_utf8(bytes@) ==> bytes@.len() <= usize::MAX / 8,
    ensures
        res@ == template_text(bytes@),
{
    match utf8_text(bytes) {
        Some(s) => s.to_owned(),
        None => decode_windows_1251(bytes),
    }
}

/// Encodes a script in Windows-1251.
pub fn encode_script(text: &str) -> (res: Vec<u8>)
    requires
        text.spec_bytes().len() <= max_script_bytes(),
    ensures
        res@ == windows_1251_encoded(text@),
        is_ascii_chars(text@) ==> res@ == text.spec_bytes(),
{
    encode_windows_1251(text)
}

/// The bytes of a bundle's install script, made from the bytes of its
/// template, the bundle's directory and the SQL scripts of the bundle.
pub fn build_install_script(template: &[u8], dir: &str, names: &Vec<String>) -> (res: Result<Vec<u8>, ScriptError>)
    requires
        !valid_utf8(template@) ==> template@.len() <= usize::MAX / 8,
    ensures
        res is Err <==> encode_utf8(rewritten_script(template_text(template@), dir@, names.deep_view())).len()
            > max_script_bytes(),
        res matches Err(e) ==> e == ScriptError::TooLong,
        res matches Ok(bytes) ==> bytes@ == windows_1251_encoded(rewritten_script(template_text(template@), dir@, names.deep_view())),
        res matches Ok(bytes) ==> (!dir@.contains('$')
            ==> bytes@ == windows_1251_encoded(plain_rewritten_script(template_text(template@), dir@, names.deep_view()))),
{
    let text = decode_template(template);
    let script = rewrite_script(text.as_str(), dir, names);
    let bytes = script.as_str().as_bytes();
    if bytes.len() > usize::MAX / 32 {
        return Err(ScriptError::TooLong);
    }
    Ok(encode_script(script.as_str()))
}

} // verus!
