//! Whitespace normalizer.
//!
//! The winning HTML fragment is rendered to plain text (wrap width is
//! informational only), then every run of whitespace — spaces, tabs,
//! newlines — collapses into a single space, with leading and trailing
//! whitespace dropped by the token-based rejoining.
use vstd::prelude::*;
use vstd::string::StrSliceExecFns;

verus! {

/// Wrap width handed to the text renderer.
pub const WRAP_WIDTH: usize = 80;

/// The whitespace that separates tokens.
pub open spec fn is_space(c: char) -> bool {
    c == ' ' || c == '\t' || c == '\n' || c == '\r'
}

/// The first `n` characters collapsed: every maximal run of whitespace
/// between tokens becomes one space, and no space starts or ends the result.
pub open spec fn collapse_prefix(s: Seq<char>, n: int) -> Seq<char>
    decreases n,
{
    if n <= 0 {
        Seq::empty()
    } else {
        let rest = collapse_prefix(s, n - 1);
        let c = s[n - 1];
        if is_space(c) {
            rest
        } else if rest.len() == 0 {
            seq![c]
        } else if !is_space(s[n - 2]) {
            rest.push(c)
        } else {
            rest.push(' ').push(c)
        }
    }
}

/// The whole text collapsed.
pub open spec fn collapsed(s: Seq<char>) -> Seq<char> {
    collapse_prefix(s, s.len() as int)
}

/// Relies on `String::push`: appends one character at the end.
#[verifier::external_body]
fn push_char(s: &mut String, c: char)
    ensures
        final(s)@ == old(s)@.push(c),
{
    s.push(c);
}

/// Whether the character is token-separating whitespace.
fn space_char(c: char) -> (r: bool)
    ensures
        r == is_space(c),
{
    c == ' ' || c == '\t' || c == '\n' || c == '\r'
}

/// Collapses every whitespace run into a single space and trims the ends.
pub fn collapse_whitespace(text: &str) -> (r: String)
    ensures
        r@ == collapsed(text@),
{
    let n = text.unicode_len();
    let mut out = String::new();
    let mut started = false;
    let mut i: usize = 0;
    while i < n
        invariant
            0 <= i <= n,
            n == text@.len(),
            out@ == collapse_prefix(text@, i as int),
            started == (out@.len() > 0),
        decreases n - i,
    {
        let c = text.get_char(i);
        if !space_char(c) {
            if !started {
                push_char(&mut out, c);
                started = true;
            } else {
                proof {
                    assert(collapse_prefix(text@, 0).len() == 0);
                    assert(i > 0);
                }
                let prev = text.get_char(i - 1);
                if !space_char(prev) {
                    push_char(&mut out, c);
                } else {
                    push_char(&mut out, ' ');
                    push_char(&mut out, c);
                }
            }
        }
        i = i + 1;
    }
    out
}

/// The plain-text rendering of an HTML fragment at a wrap width; a function
/// of its two arguments alone.
pub uninterp spec fn rendered_text(html: Seq<char>, width: int) -> Seq<char>;

/// Whether the text renderer succeeds on the fragment at the wrap width;
/// like the rendering itself, a function of its two arguments alone.
pub uninterp spec fn renders_ok(html: Seq<char>, width: int) -> bool;

/// Relies on `html2text::from_read`: renders the HTML bytes to plain text
/// wrapped at the given width, or reports a rendering error as `None`.  Its
/// errors are data-determined, so success is a function of the same two
/// arguments; an empty fragment renders successfully to empty text.
#[verifier::external_body]
fn html_to_text(html: &str, width: usize) -> (r: Option<String>)
    ensures
        r matches Some(t) ==> t@ == rendered_text(html@, width as int),
        r matches Some(_t) ==> renders_ok(html@, width as int),
        renders_ok(html@, width as int) ==> r matches Some(_t),
        html@.len() == 0 ==> width >= 1 ==> r matches Some(_t),
        r matches Some(t) ==> html@.len() == 0 ==> t@.len() == 0,
{
    match html2text::from_read(html.as_bytes(), width) {
        Ok(t) => Some(t),
        Err(_) => None,
    }
}

/// Renders the winning fragment to plain text and collapses its whitespace:
/// the extraction's final result.  Succeeds exactly when the text renderer
/// accepts the fragment; an empty fragment yields the empty result.
pub fn normalize_fragment(html: &str) -> (r: Option<String>)
    ensures
        (r is Some) == renders_ok(html@, WRAP_WIDTH as int),
        r matches Some(t) ==> t@ == collapsed(rendered_text(html@, WRAP_WIDTH as int)),
        html@.len() == 0 ==> r is Some && collapsed(
            rendered_text(html@, WRAP_WIDTH as int),
        ).len() == 0,
{
    proof {
        if html@.len() == 0 {
            assert(collapse_prefix(rendered_text(html@, WRAP_WIDTH as int), 0).len() == 0);
        }
    }
    match html_to_text(html, WRAP_WIDTH) {
        Some(t) => Some(collapse_whitespace(t.as_str())),
        None => None,
    }
}

} // verus!
