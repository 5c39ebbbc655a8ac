//! The OPTIONS DATA section: a header line, then `KEY = value` lines and
//! `TITLE` lines, read until a line that is neither or a key that is not an
//! option.

use vstd::prelude::*;
use crate::text::{
    chars_of, find_char, find_from, has_text_at, lemma_find_char, lemma_skip_line_space, same_text,
    skip_blanks, skip_blanks_from, skip_line_space, skip_line_space_from, text_at, trim, trim_ws,
    is_white_space, white_space,
};

verus! {

/// The options of a model, with their defaults until a line sets them.
#[derive(Debug)]
pub struct OptionsData {
    pub title: Option<String>,
    /// Restart input file or folder.
    pub rsi: Option<String>,
    /// Restart output file or folder.
    pub rso: Option<String>,
    /// Processor print file.
    pub output: String,
    /// File or folder for binary data.
    pub save: String,
    /// File or folder of the reliability engineering database.
    pub redb: Option<String>,
    /// Number of printed lines per page.
    pub mline: isize,
    /// Whether the spell checker is off.
    pub spelloff: bool,
    /// The in-line comment character.
    pub endchar: String,
    /// The model's name.
    pub model: Option<String>,
}

/// The options as values.
pub struct OptionsView {
    pub title: Option<Seq<char>>,
    pub rsi: Option<Seq<char>>,
    pub rso: Option<Seq<char>>,
    pub output: Seq<char>,
    pub save: Seq<char>,
    pub redb: Option<Seq<char>>,
    pub mline: int,
    pub spelloff: bool,
    pub endchar: Seq<char>,
    pub model: Option<Seq<char>>,
}

/// The text of an optional string.
pub open spec fn opt_text(o: Option<String>) -> Option<Seq<char>> {
    match o {
        Some(s) => Some(s@),
        None => None,
    }
}

impl View for OptionsData {
    type V = OptionsView;

    open spec fn view(&self) -> OptionsView {
        OptionsView {
            title: opt_text(self.title),
            rsi: opt_text(self.rsi),
            rso: opt_text(self.rso),
            output: self.output@,
            save: self.save@,
            redb: opt_text(self.redb),
            mline: self.mline as int,
            spelloff: self.spelloff,
            endchar: self.endchar@,
            model: opt_text(self.model),
        }
    }
}

/// The documented defaults.
pub open spec fn default_options() -> OptionsView {
    OptionsView {
        title: None,
        rsi: None,
        rso: None,
        output: "case0.out"@,
        save: "case0.sav"@,
        redb: None,
        mline: 10000,
        spelloff: false,
        endchar: "$"@,
        model: None,
    }
}

/// Why an OPTIONS DATA block could not be read.
#[derive(Debug, Clone, Copy, PartialEq, Eq, Structural)]
pub enum OptionsError {
    /// The block does not begin with the line `HEADER OPTIONS DATA`.
    MissingHeader,
    /// An MLINE value that is not an integer, or a SPELLOFF value that is not
    /// `true` or `false`.
    MalformedAssignment,
}

/// The line `variable = value` that begins at `pos`: the variable and the
/// value, each trimmed, and where the next line begins. The line must end in
/// a newline and hold a `=`; the first `=` divides it.
pub open spec fn assignment_at(s: Seq<char>, pos: int) -> Option<(Seq<char>, Seq<char>, int)> {
    let nl = find_char(s, '\n', pos);
    let eq = find_char(s, '=', pos);
    if nl < s.len() && eq < nl {
        Some((trim_ws(s.subrange(pos, eq)), trim_ws(s.subrange(eq + 1, nl)), nl + 1))
    } else {
        None
    }
}

/// The line `TITLE text` that begins at `pos`: the text, trimmed, and where
/// the next line begins. The first white-space-delimited word of the line
/// must be exactly `TITLE` (white space may stand before it), and the line
/// must end in a newline.
pub open spec fn title_at(s: Seq<char>, pos: int) -> Option<(Seq<char>, int)> {
    let word = skip_line_space(s, pos);
    let after = word + "TITLE"@.len();
    let nl = find_char(s, '\n', after);
    if text_at(s, word, "TITLE"@) && after < s.len() && white_space(s[after]) && nl < s.len() {
        Some((trim_ws(s.subrange(after, nl)), nl + 1))
    } else {
        None
    }
}

/// Where the body of the block begins, after the line `HEADER OPTIONS DATA`
/// (which may end in spaces or tabs).
pub open spec fn options_header_end(s: Seq<char>) -> Option<int> {
    let b = skip_blanks(s, "HEADER OPTIONS DATA"@.len() as int);
    if text_at(s, 0, "HEADER OPTIONS DATA"@) && b < s.len() && s[b] == '\n' {
        Some(b + 1)
    } else {
        None
    }
}

/// The value of a string of decimal digits.
pub open spec fn digits_value(t: Seq<char>) -> Option<int>
    decreases t.len(),
{
    if t.len() == 0 {
        None
    } else {
        let d = t.last() as u32;
        if 48 <= d <= 57 {
            if t.len() == 1 {
                Some(d - 48)
            } else {
                match digits_value(t.drop_last()) {
                    Some(h) => Some(h * 10 + (d - 48)),
                    None => None,
                }
            }
        } else {
            None
        }
    }
}

/// The value of an integer written as an optional `+` or `-` and decimal
/// digits, when it fits in an `isize`.
pub open spec fn isize_value(t: Seq<char>) -> Option<int> {
    let v = if t.len() > 0 && t[0] == '-' {
        match digits_value(t.drop_first()) {
            Some(m) => Some(-m),
            None => None,
        }
    } else if t.len() > 0 && t[0] == '+' {
        digits_value(t.drop_first())
    } else {
        digits_value(t)
    };
    match v {
        Some(x) => if isize::MIN <= x <= isize::MAX {
            Some(x)
        } else {
            None
        },
        None => None,
    }
}

/// The value of `true` or `false`.
pub open spec fn bool_value(t: Seq<char>) -> Option<bool> {
    if t == "true"@ {
        Some(true)
    } else if t == "false"@ {
        Some(false)
    } else {
        None
    }
}

/// The options after the assignment `key = value`: `None` where `key` is no
/// option, an error where the value of MLINE or SPELLOFF does not parse.
pub open spec fn apply_option(v: OptionsView, key: Seq<char>, value: Seq<char>) -> Option<
    Result<OptionsView, OptionsError>,
> {
    if key == "MODEL"@ {
        Some(Ok(OptionsView { model: Some(value), ..v }))
    } else if key == "RSI"@ {
        Some(Ok(OptionsView { rsi: Some(value), ..v }))
    } else if key == "RSO"@ {
        Some(Ok(OptionsView { rso: Some(value), ..v }))
    } else if key == "OUTPUT"@ {
        Some(Ok(OptionsView { output: value, ..v }))
    } else if key == "SAVE"@ {
        Some(Ok(OptionsView { save: value, ..v }))
    } else if key == "REDB"@ {
        Some(Ok(OptionsView { redb: Some(value), ..v }))
    } else if key == "MLINE"@ {
        match isize_value(value) {
            Some(n) => Some(Ok(OptionsView { mline: n, ..v })),
            None => Some(Err(OptionsError::MalformedAssignment)),
        }
    } else if key == "SPELLOFF"@ {
        match bool_value(value) {
            Some(b) => Some(Ok(OptionsView { spelloff: b, ..v })),
            None => Some(Err(OptionsError::MalformedAssignment)),
        }
    } else if key == "ENDCHAR"@ {
        Some(Ok(OptionsView { endchar: value, ..v }))
    } else {
        None
    }
}

/// The lines of the body read from `pos` on, starting from the options `v`:
/// the options they give and the position where reading stopped. Reading
/// stops at the end of the block (only white space left), at a line that is
/// neither an assignment nor a title, and at a key that is no option.
pub open spec fn options_from(v: OptionsView, s: Seq<char>, pos: int) -> Result<
    (OptionsView, int),
    OptionsError,
>
    decreases s.len() - pos,
    via options_from_decreases
{
    if pos < 0 || pos >= s.len() || trim_ws(s.subrange(pos, s.len() as int)).len() == 0 {
        Ok((v, pos))
    } else {
        match assignment_at(s, pos) {
            Some((key, value, next)) => match apply_option(v, key, value) {
                Some(Ok(v2)) => options_from(v2, s, next),
                Some(Err(e)) => Err(e),
                None => Ok((v, pos)),
            },
            None => match title_at(s, pos) {
                Some((t, next)) => options_from(OptionsView { title: Some(t), ..v }, s, next),
                None => Ok((v, pos)),
            },
        }
    }
}

#[via_fn]
proof fn options_from_decreases(v: OptionsView, s: Seq<char>, pos: int) {
    if 0 <= pos < s.len() {
        lemma_find_char(s, '\n', pos);
        lemma_skip_line_space(s, pos);
        lemma_find_char(s, '\n', skip_line_space(s, pos) + "TITLE"@.len());
    }
}

/// What reading a whole block gives: the rest of the block that was not read,
/// and the options.
pub open spec fn options_parse(s: Seq<char>) -> Result<(Seq<char>, OptionsView), OptionsError> {
    match options_header_end(s) {
        None => Err(OptionsError::MissingHeader),
        Some(b) => match options_from(default_options(), s, b) {
            Ok((v, p)) => Ok((s.subrange(p, s.len() as int), v)),
            Err(e) => Err(e),
        },
    }
}

impl Default for OptionsData {
    fn default() -> (r: Self)
        ensures
            r@ == default_options(),
    {
        OptionsData {
            title: None,
            rsi: None,
            rso: None,
            output: "case0.out".to_owned(),
            save: "case0.sav".to_owned(),
            redb: None,
            mline: 10000,
            spelloff: false,
            endchar: "$".to_owned(),
            model: None,
        }
    }
}

/// The line `variable = value` at `pos`: where its first `=` and its newline
/// stand.
fn parse_line(cs: &Vec<char>, pos: usize) -> (r: Option<(usize, usize)>)
    requires
        pos <= cs.len(),
    ensures
        ({
            let nl = find_char(cs@, '\n', pos as int);
            let eq = find_char(cs@, '=', pos as int);
            r == if nl < cs.len() && eq < nl {
                Some((eq as usize, nl as usize))
            } else {
                None
            }
        }),
{
    let nl = find_from(cs, '\n', pos);
    let eq = find_from(cs, '=', pos);
    if nl < cs.len() && eq < nl {
        Some((eq, nl))
    } else {
        None
    }
}

/// The line `TITLE text` at `pos`: where the text after `TITLE` begins and
/// where the line's newline stands.
fn parse_title(cs: &Vec<char>, pos: usize) -> (r: Option<(usize, usize)>)
    requires
        pos <= cs.len(),
    ensures
        ({
            let word = skip_line_space(cs@, pos as int);
            let after = word + "TITLE"@.len();
            let nl = find_char(cs@, '\n', after);
            r == if text_at(cs@, word, "TITLE"@) && after < cs.len() && white_space(cs@[after])
                && nl < cs.len() {
                Some((after as usize, nl as usize))
            } else {
                None
            }
        }),
        r matches Some((after, nl)) ==> pos < after <= nl < cs.len(),
{
    let word = skip_line_space_from(cs, pos);
    proof {
        lemma_skip_line_space(cs@, pos as int);
        reveal_strlit("TITLE");
    }
    if !has_text_at(cs, word, "TITLE") {
        return None;
    }
    let after = word + chars_of("TITLE").len();
    if after >= cs.len() || !is_white_space(cs[after]) {
        return None;
    }
    let nl = find_from(cs, '\n', after);
    proof {
        lemma_find_char(cs@, '\n', after as int);
    }
    if nl < cs.len() {
        Some((after, nl))
    } else {
        None
    }
}

/// Relies on `str::parse::<isize>`: it accepts an optional `+` or `-`
/// followed by decimal digits whose value fits in an `isize`, and nothing
/// else.
#[verifier::external_body]
fn parse_isize(t: &str) -> (r: Option<isize>)
    ensures
        match isize_value(t@) {
            Some(v) => r == Some(v as isize),
            None => r is None,
        },
{
    t.parse::<isize>().ok()
}

/// Relies on `str::parse::<bool>`: it accepts exactly `true` and `false`.
#[verifier::external_body]
fn parse_bool(t: &str) -> (r: Option<bool>)
    ensures
        r == bool_value(t@),
{
    t.parse::<bool>().ok()
}

/// Applies the assignment `key = value` to `data`.
fn apply_assignment(data: &mut OptionsData, key: &str, value: &str) -> (r: Option<
    Result<(), OptionsError>,
>)
    ensures
        match apply_option(old(data)@, key@, value@) {
            None => r is None && final(data)@ == old(data)@,
            Some(Ok(v)) => r == Some(Ok::<(), OptionsError>(())) && final(data)@ == v,
            Some(Err(e)) => r == Some(Err::<(), OptionsError>(e)),
        },
{
    if same_text(key, "MODEL") {
        data.model = Some(value.to_owned());
    } else if same_text(key, "RSI") {
        data.rsi = Some(value.to_owned());
    } else if same_text(key, "RSO") {
        data.rso = Some(value.to_owned());
    } else if same_text(key, "OUTPUT") {
        data.output = value.to_owned();
    } else if same_text(key, "SAVE") {
        data.save = value.to_owned();
    } else if same_text(key, "REDB") {
        data.redb = Some(value.to_owned());
    } else if same_text(key, "MLINE") {
        match parse_isize(value) {
            Some(n) => data.mline = n,
            None => return Some(Err(OptionsError::MalformedAssignment)),
        }
    } else if same_text(key, "SPELLOFF") {
        match parse_bool(value) {
            Some(b) => data.spelloff = b,
            None => return Some(Err(OptionsError::MalformedAssignment)),
        }
    } else if same_text(key, "ENDCHAR") {
        data.endchar = value.to_owned();
    } else {
        return None;
    }
    Some(Ok(()))
}

/// What a parse result holds, as values.
pub open spec fn options_result_view(r: Result<(&str, OptionsData), OptionsError>) -> Result<
    (Seq<char>, OptionsView),
    OptionsError,
> {
    match r {
        Ok((rest, data)) => Ok((rest@, data@)),
        Err(e) => Err(e),
    }
}

/// Reads an OPTIONS DATA block: the line `HEADER OPTIONS DATA`, then
/// assignments and title lines, each ending in a newline. Reading stops at
/// the end of the block, at a line that is neither an assignment nor a title,
/// or at a key that is no option; the options read so far are returned with
/// the text that was not read. A block with another first line is refused,
/// and so is a value of MLINE or SPELLOFF that does not parse.
pub fn parse_options_data(input: &str) -> (r: Result<(&str, OptionsData), OptionsError>)
    ensures
        options_result_view(r) == options_parse(input@),
{
    let cs = chars_of(input);
    let n = cs.len();
    if !has_text_at(&cs, 0, "HEADER OPTIONS DATA") {
        return Err(OptionsError::MissingHeader);
    }
    let b = skip_blanks_from(&cs, chars_of("HEADER OPTIONS DATA").len());
    if b >= n || cs[b] != '\n' {
        return Err(OptionsError::MissingHeader);
    }
    let start = b + 1;
    let mut data = OptionsData::default();
    let mut pos = start;
    while pos < n
        invariant
            cs@ == input@,
            n == cs.len(),
            start <= pos <= n,
            options_header_end(input@) == Some(start as int),
            options_from(default_options(), input@, start as int) == options_from(
                data@,
                input@,
                pos as int,
            ),
        ensures
            options_from(data@, input@, pos as int) == Ok::<(OptionsView, int), OptionsError>(
                (data@, pos as int),
            ),
        decreases n - pos,
    {
        let rest = input.substring_char(pos, n);
        if trim(rest).is_empty() {
            break;
        }
        match parse_line(&cs, pos) {
            Some((eq, nl)) => {
                proof {
                    lemma_find_char(cs@, '\n', pos as int);
                    lemma_find_char(cs@, '=', pos as int);
                }
                let key = trim(input.substring_char(pos, eq));
                let value = trim(input.substring_char(eq + 1, nl));
                match apply_assignment(&mut data, key, value) {
                    Some(Ok(())) => {
                        pos = nl + 1;
                    },
                    Some(Err(e)) => {
                        return Err(e);
                    },
                    None => {
                        break;
                    },
                }
            },
            None => {
                match parse_title(&cs, pos) {
                    Some((text, nl)) => {
                        proof {
                            lemma_find_char(cs@, '\n', text as int);
                        }
                        let title = trim(input.substring_char(text, nl));
                        data.title = Some(title.to_owned());
                        pos = nl + 1;
                    },
                    None => {
                        break;
                    },
                }
            },
        }
    }
    Ok((input.substring_char(pos, n), data))
}

} // verus!
