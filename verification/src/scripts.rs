use vstd::prelude::*;
use base64::Engine;
use crate::remote::hex_digit;

verus! {

#[verifier::external_type_specification]
#[verifier::external_body]
pub struct ExJsonError(serde_json::Error);

/// How `serde_json` writes one character inside a string literal: `"` and
/// `\\` behind a backslash, the control characters with a short escape as
/// `\b`, `\t`, `\n`, `\f`, `\r`, the other control characters below 0x20 as
/// `\u00` and two lowercase hexadecimal digits, and every other character as
/// it is.
pub open spec fn json_escape(c: char) -> Seq<char> {
    if c == '"' {
        seq!['\\', '"']
    } else if c == '\\' {
        seq!['\\', '\\']
    } else if c == '\u{8}' {
        seq!['\\', 'b']
    } else if c == '\t' {
        seq!['\\', 't']
    } else if c == '\n' {
        seq!['\\', 'n']
    } else if c == '\u{c}' {
        seq!['\\', 'f']
    } else if c == '\r' {
        seq!['\\', 'r']
    } else if (c as u32) < 0x20 {
        seq!['\\', 'u', '0', '0', hex_digit((c as u32 / 16) as nat), hex_digit((c as u32 % 16) as nat)]
    } else {
        seq![c]
    }
}

/// The characters of a string, each escaped.
pub open spec fn json_escaped(s: Seq<char>) -> Seq<char>
    decreases s.len(),
{
    if s.len() == 0 {
        Seq::empty()
    } else {
        json_escaped(s.drop_last()) + json_escape(s.last())
    }
}

/// The JSON string literal of a string: its escaped characters in quotes.
pub open spec fn json_literal(s: Seq<char>) -> Seq<char> {
    seq!['"'] + json_escaped(s) + seq!['"']
}

/// `serde_json::to_string` on a string slice: the quoted, escaped JSON
/// literal. Writing a string into its in-memory buffer cannot fail.
#[verifier::external_body]
fn to_json_string(text: &str) -> (r: Result<String, serde_json::Error>)
    ensures
        r is Ok,
        r matches Ok(v) ==> v@ == json_literal(text@),
{
    serde_json::to_string(text)
}

/// Encodes `text` as a JavaScript string literal (a JSON one).
pub fn js_string_literal(text: &str) -> (r: String)
    ensures
        r@ == json_literal(text@),
{
    match to_json_string(text) {
        Ok(v) => v,
        Err(_) => {
            let mut s = String::new();
            crate::text::push_char(&mut s, '"');
            crate::text::push_char(&mut s, '"');
            s
        },
    }
}

/// The script that copies a JavaScript string literal to the clipboard.
pub open spec fn clipboard_script_text(literal: Seq<char>) -> Seq<char> {
    "navigator.clipboard.writeText("@ + literal + ").catch((e) => console.error('clipboard writeText failed', e));"@
}

/// The clipboard script for an already encoded literal.
pub fn clipboard_script(literal: &str) -> (r: String)
    ensures
        r@ == clipboard_script_text(literal@),
{
    let mut s = String::from_str("navigator.clipboard.writeText(");
    s.append(literal);
    s.append(").catch((e) => console.error('clipboard writeText failed', e));");
    s
}

/// The script that copies `text` to the clipboard.
pub fn copy_to_clipboard_script(text: &str) -> (r: String)
    ensures
        r@ == clipboard_script_text(json_literal(text@)),
{
    let literal = js_string_literal(text);
    clipboard_script(literal.as_str())
}

/// The start of the toast script, up to the message argument.
pub const TOAST_SCRIPT_HEAD: &'static str = r#"(function(m){
            let t = document.getElementById('kopuz-toast');
            if (!t) {
                t = document.createElement('div');
                t.id = 'kopuz-toast';
                t.style.cssText = 'position:fixed;left:50%;bottom:88px;transform:translateX(-50%);background:rgba(20,20,20,0.95);color:#fff;padding:10px 18px;border-radius:8px;font:14px system-ui,sans-serif;z-index:99999;box-shadow:0 4px 16px rgba(0,0,0,0.4);pointer-events:none;opacity:0;transition:opacity 150ms;border:1px solid rgba(255,255,255,0.1);';
                document.body.appendChild(t);
            }
            t.textContent = m;
            t.style.opacity = '1';
            clearTimeout(t._h);
            t._h = setTimeout(() => { t.style.opacity = '0'; }, 1800);
        })("#;

/// The end of the toast script, after the message argument.
pub const TOAST_SCRIPT_TAIL: &'static str = ");";

/// The script that shows a toast with an already encoded message literal.
pub fn toast_script(literal: &str) -> (r: String)
    ensures
        r@ == TOAST_SCRIPT_HEAD@ + literal@ + TOAST_SCRIPT_TAIL@,
{
    let mut s = String::from_str(TOAST_SCRIPT_HEAD);
    s.append(literal);
    s.append(TOAST_SCRIPT_TAIL);
    s
}

/// The script that shows `msg` in a toast for a moment.
pub fn toast_script_for(msg: &str) -> (r: String)
    ensures
        r@ == TOAST_SCRIPT_HEAD@ + json_literal(msg@) + TOAST_SCRIPT_TAIL@,
{
    let literal = js_string_literal(msg);
    toast_script(literal.as_str())
}

/// The character of a 6-bit value in the standard base64 alphabet:
/// `A`–`Z`, `a`–`z`, `0`–`9`, `+`, `/`.
pub open spec fn base64_char(v: nat) -> char {
    if v < 26 {
        (v + 65) as char
    } else if v < 52 {
        (v - 26 + 97) as char
    } else if v < 62 {
        (v - 52 + 48) as char
    } else if v == 62 {
        '+'
    } else {
        '/'
    }
}

/// Padded standard base64: every three bytes become four characters of six
/// bits each; a last group of one or two bytes is filled with zero bits and
/// padded with `=` to four characters.
pub open spec fn base64_standard(b: Seq<u8>) -> Seq<char>
    decreases b.len(),
{
    if b.len() == 0 {
        Seq::empty()
    } else if b.len() == 1 {
        seq![base64_char((b[0] / 4) as nat), base64_char(((b[0] % 4) * 16) as nat), '=', '=']
    } else if b.len() == 2 {
        seq![
            base64_char((b[0] / 4) as nat),
            base64_char(((b[0] % 4) * 16 + b[1] / 16) as nat),
            base64_char(((b[1] % 16) * 4) as nat),
            '=',
        ]
    } else {
        seq![
            base64_char((b[0] / 4) as nat),
            base64_char(((b[0] % 4) * 16 + b[1] / 16) as nat),
            base64_char(((b[1] % 16) * 4 + b[2] / 64) as nat),
            base64_char((b[2] % 64) as nat),
        ] + base64_standard(b.skip(3))
    }
}

/// `base64::engine::general_purpose::STANDARD.encode`: padded standard base64
/// (`base64_standard`), four characters for every three bytes or part of them.
#[verifier::external_body]
fn encode_base64(bytes: &[u8]) -> (r: String)
    requires
        (bytes@.len() + 2) / 3 * 4 <= usize::MAX,
    ensures
        r@ == base64_standard(bytes@),
        r@.len() == (bytes@.len() + 2) / 3 * 4,
{
    base64::engine::general_purpose::STANDARD.encode(bytes)
}

/// A `data:` URL holding `bytes` of type `mime`, base64-encoded.
pub fn data_url(bytes: &[u8], mime: &str) -> (r: String)
    requires
        (bytes@.len() + 2) / 3 * 4 <= usize::MAX,
    ensures
        r@ == "data:"@ + mime@ + ";base64,"@ + base64_standard(bytes@),
{
    let b64 = encode_base64(bytes);
    let mut s = String::from_str("data:");
    s.append(mime);
    s.append(";base64,");
    s.append(b64.as_str());
    s
}

} // verus!
