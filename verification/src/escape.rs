use vstd::prelude::*;

verus! {

/// How one character is shown after minimal HTML-entity escaping.
pub open spec fn html_escape_char(c: char) -> Seq<char> {
    if c == '"' {
        seq!['&', 'q', 'u', 'o', 't', ';']
    } else if c == '&' {
        seq!['&', 'a', 'm', 'p', ';']
    } else if c == '\'' {
        seq!['&', '#', 'x', '2', '7', ';']
    } else if c == '<' {
        seq!['&', 'l', 't', ';']
    } else if c == '>' {
        seq!['&', 'g', 't', ';']
    } else {
        seq![c]
    }
}

/// Minimal HTML-entity escaping of the first `n` characters of `s`.
pub open spec fn html_escaped_prefix(s: Seq<char>, n: int) -> Seq<char>
    decreases n,
{
    if n <= 0 {
        Seq::empty()
    } else {
        html_escaped_prefix(s, n - 1) + html_escape_char(s[n - 1])
    }
}

/// Minimal HTML-entity escaping of a whole string: `"` `&` `'` `<` and `>`
/// become entities, every other character stays itself. Every
/// filesystem-derived name passes through this before it enters a response.
pub open spec fn html_escaped(s: Seq<char>) -> Seq<char> {
    html_escaped_prefix(s, s.len() as int)
}

/// Relies on htmlescape::encode_minimal: each character of the input is
/// copied through unchanged, except that `"` `&` `'` `<` and `>` become
/// `&quot;` `&amp;` `&#x27;` `&lt;` and `&gt;`. It writes to an in-memory
/// buffer and returns for every input.
#[verifier::external_body]
pub fn escape_html(s: &str) -> (r: String)
    ensures
        r@ == html_escaped(s@),
{
    htmlescape::encode_minimal(s)
}

/// A character that could open a tag or close an attribute value in markup.
pub open spec fn is_markup_char(c: char) -> bool {
    c == '<' || c == '>' || c == '"' || c == '\''
}

proof fn lemma_prefix_no_markup(s: Seq<char>, n: int)
    ensures
        forall|j: int|
            0 <= j < html_escaped_prefix(s, n).len() ==> !is_markup_char(
                #[trigger] html_escaped_prefix(s, n)[j],
            ),
    decreases n,
{
    if n > 0 {
        lemma_prefix_no_markup(s, n - 1);
        let a = html_escaped_prefix(s, n - 1);
        let b = html_escape_char(s[n - 1]);
        assert forall|j: int| 0 <= j < (a + b).len() implies !is_markup_char((a + b)[j]) by {
            if j < a.len() {
                assert((a + b)[j] == a[j]);
            } else {
                assert((a + b)[j] == b[j - a.len()]);
            }
        }
    }
}

/// Law: escaped text carries no character that could open a tag or close an
/// attribute value: no `<`, `>`, `"` or `'` survives escaping, whatever the
/// input was.
pub proof fn lemma_html_escaped_no_markup(s: Seq<char>)
    ensures
        forall|j: int|
            0 <= j < html_escaped(s).len() ==> !is_markup_char(#[trigger] html_escaped(s)[j]),
{
    lemma_prefix_no_markup(s, s.len() as int);
}

} // verus!
