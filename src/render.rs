//! Rendering a mustache template against a flat mapping of variables.
//!
//! Rendering goes through rustache. A variable that the template names but
//! the mapping lacks renders as the empty string (rustache's own policy,
//! kept on purpose). Templates that rustache cannot handle safely (tags that
//! make it panic, partials that it would read from disk) are refused before
//! the call with `RenderError::UnsupportedTag`.
use rustache::Render;
use vstd::prelude::*;
use vstd::string::{StrSliceExecFns, StringExecFns};

verus! {

/// The value of one template variable: substituted text, or a flag that
/// gates conditional sections.
#[derive(Clone, Debug, PartialEq, Eq)]
pub enum Value {
    Text(String),
    Flag(bool),
}

/// What a `Value` means in contracts.
pub enum ValueView {
    Text(Seq<char>),
    Flag(bool),
}

impl View for Value {
    type V = ValueView;

    open spec fn view(&self) -> ValueView {
        match self {
            Value::Text(s) => ValueView::Text(s@),
            Value::Flag(b) => ValueView::Flag(*b),
        }
    }
}

/// An ordered mapping from variable names to values. A later entry with
/// the same name as an earlier one takes its place.
#[derive(Clone, Debug)]
pub struct Vars {
    pub entries: Vec<(String, Value)>,
}

impl View for Vars {
    type V = Seq<(Seq<char>, ValueView)>;

    open spec fn view(&self) -> Seq<(Seq<char>, ValueView)> {
        self.entries@.map_values(|e: (String, Value)| (e.0@, e.1@))
    }
}

impl Vars {
    pub fn new() -> (r: Vars)
        ensures
            r@ == Seq::<(Seq<char>, ValueView)>::empty(),
    {
        let r = Vars { entries: Vec::new() };
        assert(r@ =~= Seq::<(Seq<char>, ValueView)>::empty());
        r
    }

    /// Appends one entry.
    pub fn insert(&mut self, name: &str, value: Value)
        ensures
            final(self)@ == old(self)@.push((name@, value@)),
    {
        self.entries.push((name.to_string(), value));
        assert(final(self)@ =~= old(self)@.push((name@, value@)));
    }
}

/// Why a template was not rendered.
#[derive(Clone, Copy, Debug, PartialEq, Eq, Structural)]
pub enum RenderError {
    /// A tag opens with a character that the renderer cannot take: `{{>`
    /// (a partial, read from disk), `{{!`, `{{{`, `{{}}`, a non-ASCII
    /// character, or `{{` at the very end of the text.
    UnsupportedTag,
    /// The engine refused the template and the data.
    Engine,
}

/// Characters that may follow `{{` in a supported template.
pub open spec fn tag_start_ok(c: char) -> bool {
    ('a' <= c && c <= 'z') || ('A' <= c && c <= 'Z') || ('0' <= c && c <= '9') || c == '_'
        || c == '#' || c == '/' || c == '^' || c == '&' || c == ' '
}

/// Every `{{` of the template is followed by a character that the
/// renderer accepts.
pub open spec fn template_supported(t: Seq<char>) -> bool {
    forall|i: int|
        0 <= i && i + 1 < t.len() && #[trigger] t[i] == '{' && t[i + 1] == '{' ==> i + 2
            < t.len() && tag_start_ok(t[i + 2])
}

/// What rustache renders from a supported template and a mapping: `None`
/// where it reports an error.
pub uninterp spec fn rustache_output(
    template: Seq<char>,
    vars: Seq<(Seq<char>, ValueView)>,
) -> Option<Seq<char>>;

/// Relies on rustache's `HashBuilder::insert` and `Render::render`: the
/// output is a function of the template and of the entries (a later entry
/// replaces an earlier one of the same name). Rendering into a `Vec<u8>`
/// writes UTF-8 text that came from `&str` pieces. `template_supported`
/// keeps out the tags on which rustache's tokenizer slices out of bounds
/// and panics (`{{}}`, `{{{}}`, a non-ASCII first character), a comment
/// as the first tag (its parser unwraps an empty node list) and partials,
/// which it reads from disk.
#[verifier::external_body]
fn rustache_render(template: &str, vars: &Vars) -> (r: Option<String>)
    requires
        template_supported(template@),
    ensures
        r matches Some(s) ==> rustache_output(template@, vars@) == Some(s@),
        r is None ==> rustache_output(template@, vars@) is None,
{
    let mut data = rustache::HashBuilder::new();
    for (name, value) in vars.entries.iter() {
        data = match value {
            Value::Text(s) => data.insert(name.as_str(), s.as_str()),
            Value::Flag(b) => data.insert(name.as_str(), *b),
        };
    }
    let mut out: Vec<u8> = Vec::new();
    match data.render(template, &mut out) {
        Ok(()) => Some(String::from_utf8_lossy(&out).into_owned()),
        Err(_) => None,
    }
}

/// Characters that open a plain variable tag (`{{name}}`, `{{ name }}`).
pub open spec fn plain_tag_start(c: char) -> bool {
    ('a' <= c && c <= 'z') || ('A' <= c && c <= 'Z') || ('0' <= c && c <= '9') || c == '_' || c
        == ' '
}

/// The template with each plain variable tag `{{name}}` turned into the
/// engine's literal form `{{&name}}`, so that text is substituted as it
/// stands, without HTML escaping. Section tags are left alone.
pub open spec fn literal_tags(t: Seq<char>) -> Seq<char>
    decreases t.len(),
{
    if t.len() == 0 {
        t
    } else if t.len() >= 3 && t[0] == '{' && t[1] == '{' && plain_tag_start(t[2]) {
        "{{&"@ + literal_tags(t.skip(2))
    } else {
        seq![t[0]] + literal_tags(t.skip(1))
    }
}

/// `literal_tags`, computed.
pub fn make_literal(template: &str) -> (r: String)
    ensures
        r@ == literal_tags(template@),
{
    let ghost t = template@;
    let n = template.unicode_len();
    let mut out = String::new();
    let mut start: usize = 0;
    let mut i: usize = 0;
    assert(out@ + t.subrange(0, 0) + literal_tags(t.skip(0)) =~= literal_tags(t)) by {
        assert(t.skip(0) =~= t);
    }
    while i < n
        invariant
            n == t.len(),
            t == template@,
            start <= i <= n,
            out@ + t.subrange(start as int, i as int) + literal_tags(t.skip(i as int))
                == literal_tags(t),
        decreases n - i,
    {
        let ghost rest = t.skip(i as int);
        if n - i > 2 && template.get_char(i) == '{' && template.get_char(i + 1) == '{' && {
            let c = template.get_char(i + 2);
            ('a' <= c && c <= 'z') || ('A' <= c && c <= 'Z') || ('0' <= c && c <= '9') || c == '_'
                || c == ' '
        } {
            assert(rest[0] == t[i as int] && rest[1] == t[i + 1] && rest[2] == t[i + 2]);
            assert(rest.skip(2) =~= t.skip(i + 2));
            assert(literal_tags(rest) == "{{&"@ + literal_tags(t.skip(i + 2)));
            out.append(template.substring_char(start, i));
            out.append("{{&");
            assert(t.subrange(start as int, i as int) + ("{{&"@ + literal_tags(t.skip(i + 2)))
                =~= t.subrange(start as int, i as int) + "{{&"@ + literal_tags(t.skip(i + 2)));
            start = i + 2;
            i = i + 2;
            assert(t.subrange(start as int, i as int) =~= Seq::<char>::empty());
        } else {
            assert(rest[0] == t[i as int]);
            assert(rest.skip(1) =~= t.skip(i + 1));
            assert(literal_tags(rest) == seq![t[i as int]] + literal_tags(t.skip(i + 1)));
            assert(t.subrange(start as int, i as int) + (seq![t[i as int]] + literal_tags(
                t.skip(i + 1),
            )) =~= t.subrange(start as int, i + 1) + literal_tags(t.skip(i + 1)));
            i = i + 1;
        }
    }
    assert(t.skip(n as int) =~= Seq::<char>::empty());
    out.append(template.substring_char(start, n));
    assert(out@ =~= literal_tags(t));
    out
}

/// What `render` returns, in contracts: the engine's output for the
/// template with literal variable tags.
pub open spec fn render_spec(template: Seq<char>, vars: Seq<(Seq<char>, ValueView)>) -> Result<
    Seq<char>,
    RenderError,
> {
    let t = literal_tags(template);
    if !template_supported(t) {
        Err(RenderError::UnsupportedTag)
    } else {
        match rustache_output(t, vars) {
            Some(s) => Ok(s),
            None => Err(RenderError::Engine),
        }
    }
}

/// Whether `template` is supported, checked character by character.
pub fn is_supported(template: &str) -> (r: bool)
    ensures
        r == template_supported(template@),
{
    let n = template.unicode_len();
    let mut i: usize = 0;
    while i < n
        invariant
            n == template@.len(),
            i <= n,
            forall|j: int|
                0 <= j < i && j + 1 < template@.len() && #[trigger] template@[j] == '{'
                    && template@[j + 1] == '{' ==> j + 2 < template@.len() && tag_start_ok(
                    template@[j + 2],
                ),
        decreases n - i,
    {
        if i + 1 < n && template.get_char(i) == '{' && template.get_char(i + 1) == '{' {
            if i + 2 >= n {
                assert(template@[i as int] == '{');
                return false;
            }
            let c = template.get_char(i + 2);
            let ok = ('a' <= c && c <= 'z') || ('A' <= c && c <= 'Z') || ('0' <= c && c <= '9')
                || c == '_' || c == '#' || c == '/' || c == '^' || c == '&' || c == ' ';
            if !ok {
                assert(template@[i as int] == '{');
                return false;
            }
        }
        i = i + 1;
    }
    true
}

/// Renders `template` against `vars`. Variables missing from `vars` render
/// as the empty string; boolean variables gate `{{#name}}` sections; text
/// is substituted as it stands, with no escaping.
pub fn render(template: &str, vars: &Vars) -> (r: Result<String, RenderError>)
    ensures
        match render_spec(template@, vars@) {
            Ok(s) => r matches Ok(out) && out@ == s,
            Err(e) => r == Err::<String, RenderError>(e),
        },
{
    let literal = make_literal(template);
    if !is_supported(literal.as_str()) {
        return Err(RenderError::UnsupportedTag);
    }
    match rustache_render(literal.as_str(), vars) {
        Some(s) => Ok(s),
        None => Err(RenderError::Engine),
    }
}

} // verus!
