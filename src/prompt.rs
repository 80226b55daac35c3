use vstd::prelude::*;
use crate::error::ResolveError;

verus! {

/// The narrative that asks for the result of combining `{a}` and `{b}`, with
/// known facts in `{examples}`; it ends on the open cue `% {a} + {b} =`.
pub const PROMPT: &'static str = r#"
Welcome to the World Graph game!

The core idea of World Graph is to explore relationships.
We do this in an algebraic way. Specifically the addition operation.

When two things are combined with `+` we get a third thing.

For example:
% King + Woman = Queen
% Water + Fire = Steam

Addition is commutative, so the order of the things does not matter.
% King + Woman = Queen
% Woman + King = Queen

Not all combinations are sensible, these are undefined.
% Moss + Karl Marx = undefined
% Nuclear + Lipstick = undefined

Using adjectives or adverbs is generally undesirable:
BAD:
% Sand + Water = Wet Sand
GOOD:
% Sand + Water = Mud
BAD:
% Water + Sea = More Water
GOOD:
% Water + Sea = Ocean

Results never contain prose:
BAD:
% Fire + Water = A hot steam vapour
GOOD:
% Fire + Water = Steam
BAD:
% Knowledge + Power = The ability to control people
GOOD:
% Knowledge + Power = Wisdom

Results never grow nominally:
BAD:
% Planet + Planet = Two Planets
GOOD:
% Planet + Planet = Solar System

Countless interesting combinations are possible, and we are just scratching the surface.
In World Graph, you're only limited by your imagination.

You'll soon realize that the game is not about the result, but the journey to get there.
Exciting relationships will be discovered, and you'll be surprised by the results.

For example, you'll discover intriguing examples like:
{examples}
% {a} + {b} ="#;

/// How `PROMPT` ends: the example lines, then the open cue for `a` and `b`.
/// Everything before it is the narrative, which has no tags.
pub const PROMPT_TAIL: &'static str = "{examples}\n% {a} + {b} =";

/// The narrative part of `PROMPT`, before its tail.
pub open spec fn narrative() -> Seq<char> {
    PROMPT@.take(PROMPT@.len() - PROMPT_TAIL@.len())
}

/// One character as HTML-escaped text.
pub open spec fn escape_char(c: char) -> Seq<char> {
    if c == '<' {
        "&lt;"@
    } else if c == '>' {
        "&gt;"@
    } else if c == '&' {
        "&amp;"@
    } else if c == '\'' {
        "&#39;"@
    } else if c == '"' {
        "&quot;"@
    } else {
        seq![c]
    }
}

/// `s` with `<`, `>`, `&`, `'` and `"` replaced by their HTML entities.
pub open spec fn html_escaped(s: Seq<char>) -> Seq<char>
    decreases s.len(),
{
    if s.len() == 0 {
        Seq::empty()
    } else {
        html_escaped(s.drop_last()) + escape_char(s.last())
    }
}

/// The prompt for `a` and `b` with the given example lines: the narrative,
/// the escaped examples, then the cue `% a + b =`.
pub open spec fn prompt_text(a: Seq<char>, b: Seq<char>, examples: Seq<char>) -> Seq<char> {
    narrative() + html_escaped(examples) + "\n% "@ + html_escaped(a) + " + "@ + html_escaped(b) + " ="@
}

/// Relies on tinytemplate's `TinyTemplate::new`, `add_template` and `render`
/// on the fixed `PROMPT`: it compiles (no backslash, no block, three value
/// tags), its literal text is copied as it stands, and each tag is replaced by
/// its value as the default formatter `format` writes a string, HTML-escaped by
/// `escape`, which does not fail.
#[verifier::external_body]
fn render_prompt(a: &str, b: &str, examples: &str) -> (r: Result<String, String>)
    ensures
        r is Ok,
        r matches Ok(s) ==> s@ == prompt_text(a@, b@, examples@),
{
    let mut ctx = std::collections::HashMap::new();
    ctx.insert("a", a);
    ctx.insert("b", b);
    ctx.insert("examples", examples);
    let mut tt = tinytemplate::TinyTemplate::new();
    tt.add_template("prompt", PROMPT).and_then(|_| tt.render("prompt", &ctx)).map_err(|e| e.to_string())
}

/// Renders the prompt for combining `a` and `b` with the given example lines.
///
/// The fixed template always renders; a `Template` error would be a defect of
/// the template itself.
pub fn prompt(a: &str, b: &str, examples: &str) -> (r: Result<String, ResolveError>)
    ensures
        r matches Ok(p) && p@ == prompt_text(a@, b@, examples@),
{
    match render_prompt(a, b, examples) {
        Ok(s) => Ok(s),
        Err(e) => Err(ResolveError::Template(e)),
    }
}

} // verus!
