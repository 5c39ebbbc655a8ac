//! Dispatch of a block by its header line: `HEADER <section name>` with an
//! optional `, <subordinate>` qualifier.

use vstd::prelude::*;
use crate::blocks::header_token;
use crate::text::{
    chars_of, find_char, find_from, has_text_at, lemma_find_char, same_text, text_at, trim, trim_ws,
};

verus! {

/// The sections that have a parser.
#[derive(Debug, Clone, Copy, PartialEq, Eq, Structural)]
pub enum SectionKind {
    Options,
    Node,
    Conductor,
    Control,
    Source,
    Operations,
}

/// The header line of a block: which section it opens, and its subordinate
/// qualifier, if any.
#[derive(Debug)]
pub struct SectionHeader {
    pub kind: SectionKind,
    pub subordinate: Option<String>,
}

/// Why a block was not dispatched.
#[derive(Debug)]
pub enum SectionError {
    /// The block's first line names no known section (or does not begin with
    /// `HEADER`); the line is carried as it stands.
    UnrecognizedSection(String),
}

/// The section that a trimmed name stands for.
pub open spec fn section_kind(name: Seq<char>) -> Option<SectionKind> {
    if name == "OPTIONS DATA"@ {
        Some(SectionKind::Options)
    } else if name == "NODE DATA"@ {
        Some(SectionKind::Node)
    } else if name == "CONDUCTOR DATA"@ {
        Some(SectionKind::Conductor)
    } else if name == "CONTROL DATA"@ {
        Some(SectionKind::Control)
    } else if name == "SOURCE DATA"@ {
        Some(SectionKind::Source)
    } else if name == "OPERATIONS"@ {
        Some(SectionKind::Operations)
    } else {
        None
    }
}

/// What the first line of `s` says: after `HEADER` and a space or tab, the
/// name runs up to the first comma of the line (or its end) and the
/// qualifier follows the comma; both are trimmed. The error carries the
/// first line.
pub open spec fn header_model(s: Seq<char>) -> Result<(SectionKind, Option<Seq<char>>), Seq<char>> {
    let nl = find_char(s, '\n', 0);
    let line = s.subrange(0, nl);
    let comma = find_char(s, ',', 6);
    let name_end = if comma < nl { comma } else { nl };
    let sub = if comma < nl {
        Some(trim_ws(s.subrange(comma + 1, nl)))
    } else {
        None
    };
    if text_at(s, 0, header_token()) && s.len() > 6 && (s[6] == ' ' || s[6] == '\t') {
        match section_kind(trim_ws(s.subrange(6, name_end))) {
            Some(k) => Ok((k, sub)),
            None => Err(line),
        }
    } else {
        Err(line)
    }
}

/// What a dispatch result holds, as values.
pub open spec fn header_result_view(r: Result<SectionHeader, SectionError>) -> Result<
    (SectionKind, Option<Seq<char>>),
    Seq<char>,
> {
    match r {
        Ok(h) => Ok(
            (
                h.kind,
                match h.subordinate {
                    Some(t) => Some(t@),
                    None => None,
                },
            ),
        ),
        Err(SectionError::UnrecognizedSection(line)) => Err(line@),
    }
}

/// Executable `section_kind`.
fn kind_of_name(name: &str) -> (r: Option<SectionKind>)
    ensures
        r == section_kind(name@),
{
    if same_text(name, "OPTIONS DATA") {
        Some(SectionKind::Options)
    } else if same_text(name, "NODE DATA") {
        Some(SectionKind::Node)
    } else if same_text(name, "CONDUCTOR DATA") {
        Some(SectionKind::Conductor)
    } else if same_text(name, "CONTROL DATA") {
        Some(SectionKind::Control)
    } else if same_text(name, "SOURCE DATA") {
        Some(SectionKind::Source)
    } else if same_text(name, "OPERATIONS") {
        Some(SectionKind::Operations)
    } else {
        None
    }
}

/// Reads the header line of a block and tells which section it opens. A
/// first line that names no known section is refused with that line, which
/// leaves the other blocks of the file untouched.
pub fn section_header(block: &str) -> (r: Result<SectionHeader, SectionError>)
    ensures
        header_result_view(r) == header_model(block@),
{
    let cs = chars_of(block);
    let n = cs.len();
    let nl = find_from(&cs, '\n', 0);
    proof {
        lemma_find_char(cs@, '\n', 0);
        reveal_strlit("HEADER");
        assert("HEADER"@ =~= header_token());
    }
    if !has_text_at(&cs, 0, "HEADER") || n <= 6 || (cs[6] != ' ' && cs[6] != '\t') {
        return Err(SectionError::UnrecognizedSection(block.substring_char(0, nl).to_owned()));
    }
    proof {
        if nl < 6 {
            assert(cs@.subrange(0, 6)[nl as int] == cs@[nl as int]);
        }
    }
    let comma = find_from(&cs, ',', 6);
    proof {
        lemma_find_char(cs@, ',', 6);
    }
    let name_end = if comma < nl {
        comma
    } else {
        nl
    };
    match kind_of_name(trim(block.substring_char(6, name_end))) {
        Some(kind) => {
            let subordinate = if comma < nl {
                Some(trim(block.substring_char(comma + 1, nl)).to_owned())
            } else {
                None
            };
            Ok(SectionHeader { kind, subordinate })
        },
        None => Err(SectionError::UnrecognizedSection(block.substring_char(0, nl).to_owned())),
    }
}

} // verus!
