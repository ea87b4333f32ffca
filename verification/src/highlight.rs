//! The calls into `syntect` that highlight code: its bundled themes and
//! default syntaxes, held together under the name of the chosen theme.

use vstd::prelude::*;
use syntect::easy::HighlightLines;
use syntect::highlighting::{Theme, ThemeSet};
use syntect::parsing::SyntaxSet;
use crate::text::string_views;

verus! {

#[verifier::external_type_specification]
#[verifier::external_body]
pub struct ExSyntaxSet(SyntaxSet);

#[verifier::external_type_specification]
#[verifier::external_body]
pub struct ExTheme(Theme);

/// `syntect`'s default syntaxes and one of its bundled themes, with that
/// theme's name. The fields are private and only `load_highlighting` makes
/// one, so the theme is always the bundled theme of that name.
pub struct Highlighting {
    syntaxes: SyntaxSet,
    theme: Theme,
    name: String,
}

impl Highlighting {
    /// The name of the bundled theme it highlights with.
    pub closed spec fn theme_name(&self) -> Seq<char> {
        self.name@
    }
}

/// The keys of `ThemeSet::load_defaults()`, as its documentation lists
/// them.
pub open spec fn bundled_theme_names() -> Set<Seq<char>> {
    set![
        "base16-ocean.dark"@,
        "base16-eighties.dark"@,
        "base16-mocha.dark"@,
        "base16-ocean.light"@,
        "InspiredGitHub"@,
        "Solarized (dark)"@,
        "Solarized (light)"@,
    ]
}

/// The background colour (red, green, blue) that the bundled theme named
/// `name` sets in `ThemeSettings::background`, if it sets one.
pub uninterp spec fn bundled_theme_background(name: Seq<char>) -> Option<(u8, u8, u8)>;

/// What `syntect` makes of `lines` (handed over without their newline)
/// with its default syntaxes (`load_defaults_newlines`) and the bundled
/// theme named `theme`: `None` when
/// `SyntaxSet::find_syntax_by_token(token)` finds no syntax; else, line by
/// line in one `HighlightLines`, each piece's foreground colour (red,
/// green, blue), font style bits and text, or the message of the first
/// error.
pub uninterp spec fn highlighted_lines(
    theme: Seq<char>,
    token: Seq<char>,
    lines: Seq<Seq<char>>,
) -> Option<Result<Seq<Seq<(u8, u8, u8, u8, Seq<char>)>>, Seq<char>>>;

/// The pieces of one highlighted line as plain values.
pub open spec fn pieces_view(v: Seq<(u8, u8, u8, u8, String)>) -> Seq<(u8, u8, u8, u8, Seq<char>)> {
    Seq::new(v.len(), |i: int| (v[i].0, v[i].1, v[i].2, v[i].3, v[i].4@))
}

/// A block's highlighted lines as plain values.
pub open spec fn block_view(
    r: Option<Result<Vec<Vec<(u8, u8, u8, u8, String)>>, String>>,
) -> Option<Result<Seq<Seq<(u8, u8, u8, u8, Seq<char>)>>, Seq<char>>> {
    match r {
        None => None,
        Some(Ok(v)) => Some(Ok(Seq::new(v.len() as nat, |i: int| pieces_view(v@[i]@)))),
        Some(Err(e)) => Some(Err(e@)),
    }
}

/// The concatenation of the pieces' texts.
pub open spec fn pieces_text(v: Seq<(u8, u8, u8, u8, Seq<char>)>) -> Seq<char>
    decreases v.len(),
{
    if v.len() == 0 { seq![] } else { pieces_text(v.drop_last()) + v.last().4 }
}

/// The bundled theme named `name` (`ThemeSet::load_defaults`, its map
/// looked up by `BTreeMap::remove`) with the default syntaxes
/// (`SyntaxSet::load_defaults_newlines`); `None` when no bundled theme has
/// that name. The bundled names are those the crate documents.
#[verifier::external_body]
pub fn load_highlighting(name: &str) -> (r: Option<Highlighting>)
    ensures
        r is Some <==> bundled_theme_names().contains(name@),
        r matches Some(h) ==> h.theme_name() == name@,
{
    let theme = ThemeSet::load_defaults().themes.remove(name)?;
    Some(Highlighting { syntaxes: SyntaxSet::load_defaults_newlines(), theme, name: name.to_string() })
}

/// The background colour of the theme (`ThemeSettings::background`).
#[verifier::external_body]
pub fn theme_background(h: &Highlighting) -> (r: Option<(u8, u8, u8)>)
    ensures
        r == bundled_theme_background(h.theme_name()),
{
    h.theme.settings.background.map(|c| (c.r, c.g, c.b))
}

/// Highlights a block's lines one after another
/// (`SyntaxSet::find_syntax_by_token`, `HighlightLines::new` and
/// `HighlightLines::highlight_line` on each line), giving each piece's
/// foreground colour, font style bits (`FontStyle::bits`) and text; an
/// error becomes its message. As the crate documents, the pieces of a line
/// make up the line.
#[verifier::external_body]
pub fn highlight_block(h: &Highlighting, token: &str, lines: &Vec<String>) -> (r: Option<Result<Vec<Vec<(u8, u8, u8, u8, String)>>, String>>)
    ensures
        block_view(r) == highlighted_lines(h.theme_name(), token@, string_views(lines@)),
        r matches Some(Ok(v)) ==> v.len() == lines.len()
            && forall|i: int| 0 <= i < v.len() ==> pieces_text(pieces_view(#[trigger] v@[i]@)) == lines@[i]@,
{
    let syntax = h.syntaxes.find_syntax_by_token(token)?;
    let mut hl = HighlightLines::new(syntax, &h.theme);
    Some(lines.iter().map(|line| hl.highlight_line(line, &h.syntaxes)
        .map(|v| v.into_iter().map(|(s, t)| (s.foreground.r, s.foreground.g, s.foreground.b, s.font_style.bits(), t.to_string())).collect())
        .map_err(|e| e.to_string())).collect())
}

} // verus!
