//! What the answers to the questions of `config add` and `config edit`
//! mean: each answer, with the current value where a tunnel is edited,
//! gives the value to keep or the reason to ask again.

use vstd::prelude::*;

use crate::config::{kind_label, spec_effective_local_host, ResolvedModel, ResolvedTunnelConfig, TunnelConfig, DEFAULT_LOCAL_HOST};
use crate::display::{endpoint_text, format_local_endpoint, parse_tag_list, spec_tag_list_input};
use crate::paths::{format_path_for_display_with_home, spec_display_path};
use crate::strings::clone_strings;
use crate::text::{char_is_ws, chars_of, concat_str, decimal, decimal_string, is_ws, parse_unsigned, parse_unsigned_str, str_eq, trim, trim_str};

verus! {

/// Why an answer was not taken; the question is asked again.
#[derive(Debug, Clone, Copy, PartialEq, Eq, Structural)]
pub enum AnswerError {
    /// Nothing was typed where a value is required.
    Empty,
    /// A local host with whitespace in it.
    LocalHostWhitespace,
    /// Not a port number.
    InvalidPort,
}

/// The message for an answer that was not taken.
pub open spec fn spec_answer_error_text(e: AnswerError) -> Seq<char> {
    match e {
        AnswerError::Empty => "Value cannot be empty."@,
        AnswerError::LocalHostWhitespace => "Local host cannot contain whitespace."@,
        AnswerError::InvalidPort => "Port must be a number between 1 and 65535."@,
    }
}

impl AnswerError {
    /// The message for the answer that was not taken.
    pub fn to_display_string(&self) -> (r: String)
        ensures
            r@ == spec_answer_error_text(*self),
    {
        match self {
            AnswerError::Empty => String::from_str("Value cannot be empty."),
            AnswerError::LocalHostWhitespace => String::from_str("Local host cannot contain whitespace."),
            AnswerError::InvalidPort => String::from_str("Port must be a number between 1 and 65535."),
        }
    }
}

/// A required value: the answer without surrounding whitespace; when it
/// is blank, the current value (trimmed) where there is a non-blank one;
/// else refused as empty.
pub open spec fn spec_required_answer(answer: Seq<char>, current: Option<Seq<char>>) -> Result<Seq<char>, AnswerError> {
    if trim(answer).len() > 0 {
        Ok(trim(answer))
    } else {
        match current {
            Some(c) => if trim(c).len() > 0 {
                Ok(trim(c))
            } else {
                Err(AnswerError::Empty)
            },
            None => Err(AnswerError::Empty),
        }
    }
}

/// The mathematical value of an optional `&str`.
pub open spec fn opt_text(s: Option<&str>) -> Option<Seq<char>> {
    match s {
        Some(t) => Some(t@),
        None => None,
    }
}

/// A required value from an answer, given the current value when a
/// tunnel is edited.
pub fn required_answer(answer: &str, current: Option<&str>) -> (r: Result<String, AnswerError>)
    ensures
        match r {
            Ok(v) => spec_required_answer(answer@, opt_text(current)) == Ok::<Seq<char>, AnswerError>(v@),
            Err(e) => spec_required_answer(answer@, opt_text(current)) == Err::<Seq<char>, AnswerError>(e),
        },
{
    let t = trim_str(answer);
    if t.as_str().unicode_len() > 0 {
        return Ok(t);
    }
    match current {
        Some(c) => {
            let ct = trim_str(c);
            if ct.as_str().unicode_len() > 0 {
                Ok(ct)
            } else {
                Err(AnswerError::Empty)
            }
        },
        None => Err(AnswerError::Empty),
    }
}

/// An optional value: the answer without surrounding whitespace; when it
/// is blank, the current value as it is (none when adding).
pub open spec fn spec_optional_answer(answer: Seq<char>, current: Option<Seq<char>>) -> Option<Seq<char>> {
    if trim(answer).len() > 0 {
        Some(trim(answer))
    } else {
        current
    }
}

/// An optional value from an answer, given the current value when a
/// tunnel is edited.
pub fn optional_answer(answer: &str, current: Option<&str>) -> (r: Option<String>)
    ensures
        r.deep_view() == spec_optional_answer(answer@, opt_text(current)),
{
    let t = trim_str(answer);
    if t.as_str().unicode_len() > 0 {
        Some(t)
    } else {
        match current {
            Some(c) => Some(String::from_str(c)),
            None => None,
        }
    }
}

/// Whether a text holds a whitespace character.
pub open spec fn has_whitespace(s: Seq<char>) -> bool {
    exists|i: int| 0 <= i < s.len() && is_ws(#[trigger] s[i])
}

/// Whether a text holds a whitespace character.
fn contains_whitespace(s: &str) -> (r: bool)
    ensures
        r == has_whitespace(s@),
{
    let cs = chars_of(s);
    let mut i: usize = 0;
    while i < cs.len()
        invariant
            cs@ == s@,
            i <= cs@.len(),
            forall|j: int| 0 <= j < i ==> !is_ws(#[trigger] s@[j]),
        decreases cs@.len() - i,
    {
        if char_is_ws(cs[i]) {
            return true;
        }
        i += 1;
    }
    false
}

/// The local host of a new tunnel: the answer without surrounding
/// whitespace, or the default host when blank; refused when it holds
/// whitespace.
pub open spec fn spec_new_local_host_answer(answer: Seq<char>) -> Result<Seq<char>, AnswerError> {
    let v = if trim(answer).len() > 0 {
        trim(answer)
    } else {
        DEFAULT_LOCAL_HOST@
    };
    if has_whitespace(v) {
        Err(AnswerError::LocalHostWhitespace)
    } else {
        Ok(v)
    }
}

/// The local host of a new tunnel from an answer.
pub fn new_local_host_answer(answer: &str) -> (r: Result<String, AnswerError>)
    ensures
        match r {
            Ok(v) => spec_new_local_host_answer(answer@) == Ok::<Seq<char>, AnswerError>(v@),
            Err(e) => spec_new_local_host_answer(answer@) == Err::<Seq<char>, AnswerError>(e),
        },
{
    let t = trim_str(answer);
    let v = if t.as_str().unicode_len() > 0 {
        t
    } else {
        String::from_str(DEFAULT_LOCAL_HOST)
    };
    if contains_whitespace(v.as_str()) {
        Err(AnswerError::LocalHostWhitespace)
    } else {
        Ok(v)
    }
}

/// The local host of an edited tunnel: a required value in place of the
/// effective host, refused when it holds whitespace; left unset when it
/// was unset and the default host is kept.
pub open spec fn spec_edited_local_host_answer(answer: Seq<char>, current: crate::config::TunnelModel) -> Result<
    Option<Seq<char>>,
    AnswerError,
> {
    match spec_required_answer(answer, Some(spec_effective_local_host(current))) {
        Err(e) => Err(e),
        Ok(v) => if has_whitespace(v) {
            Err(AnswerError::LocalHostWhitespace)
        } else if current.local_host is None && v == DEFAULT_LOCAL_HOST@ {
            Ok(None)
        } else {
            Ok(Some(v))
        },
    }
}

/// The local host of an edited tunnel from an answer.
pub fn edited_local_host_answer(answer: &str, current: &TunnelConfig) -> (r: Result<Option<String>, AnswerError>)
    ensures
        match r {
            Ok(v) => spec_edited_local_host_answer(answer@, current@) == Ok::<Option<Seq<char>>, AnswerError>(
                v.deep_view(),
            ),
            Err(e) => spec_edited_local_host_answer(answer@, current@) == Err::<Option<Seq<char>>, AnswerError>(e),
        },
{
    let v = match required_answer(answer, Some(current.effective_local_host())) {
        Ok(v) => v,
        Err(e) => return Err(e),
    };
    if contains_whitespace(v.as_str()) {
        return Err(AnswerError::LocalHostWhitespace);
    }
    if current.local_host.is_none() && str_eq(v.as_str(), DEFAULT_LOCAL_HOST) {
        Ok(None)
    } else {
        Ok(Some(v))
    }
}

/// A port: the answer without surrounding whitespace, or the default
/// when blank, read as a number from 1 to 65535.
pub open spec fn spec_port_answer(answer: Seq<char>, default: Option<u16>) -> Result<u16, AnswerError> {
    let candidate = if trim(answer).len() > 0 {
        trim(answer)
    } else {
        match default {
            Some(d) => decimal(d as nat),
            None => seq![],
        }
    };
    match parse_unsigned(candidate, 65535) {
        Some(v) => if v > 0 {
            Ok(v as u16)
        } else {
            Err(AnswerError::InvalidPort)
        },
        None => Err(AnswerError::InvalidPort),
    }
}

/// A port from an answer, given the value offered (the current port when
/// a tunnel is edited, or a default).
pub fn port_answer(answer: &str, default: Option<u16>) -> (r: Result<u16, AnswerError>)
    ensures
        r == spec_port_answer(answer@, default),
{
    let t = trim_str(answer);
    let candidate = if t.as_str().unicode_len() > 0 {
        t
    } else {
        match default {
            Some(d) => decimal_string(d as u64),
            None => {
                let e = String::new();
                assert(e@ =~= seq![]);
                e
            },
        }
    };
    match parse_unsigned_str(candidate.as_str(), 65535) {
        Some(v) => {
            if v > 0 {
                Ok(v as u16)
            } else {
                Err(AnswerError::InvalidPort)
            }
        },
        None => Err(AnswerError::InvalidPort),
    }
}

/// An optional port of an edited tunnel: the current one when the answer
/// is blank, else the answer read as a number from 1 to 65535.
pub open spec fn spec_optional_port_answer(answer: Seq<char>, current: Option<u16>) -> Result<Option<u16>, AnswerError> {
    if trim(answer).len() == 0 {
        Ok(current)
    } else {
        match spec_port_answer(answer, None) {
            Ok(p) => Ok(Some(p)),
            Err(e) => Err(e),
        }
    }
}

/// An optional port of an edited tunnel from an answer.
pub fn optional_port_answer(answer: &str, current: Option<u16>) -> (r: Result<Option<u16>, AnswerError>)
    ensures
        r == spec_optional_port_answer(answer@, current),
{
    let t = trim_str(answer);
    if t.as_str().unicode_len() == 0 {
        return Ok(current);
    }
    match port_answer(answer, None) {
        Ok(p) => Ok(Some(p)),
        Err(e) => Err(e),
    }
}

/// The tags of an edited tunnel: the current ones when the answer is
/// blank, else the tags typed.
pub open spec fn spec_edited_tags_answer(answer: Seq<char>, current: Seq<Seq<char>>) -> Result<
    Seq<Seq<char>>,
    Seq<char>,
> {
    if trim(answer).len() == 0 {
        Ok(current)
    } else {
        spec_tag_list_input(answer)
    }
}

/// The tags of an edited tunnel from an answer; a refusal says which tag
/// is not valid.
pub fn edited_tags_answer(answer: &str, current: &Vec<String>) -> (r: Result<Vec<String>, String>)
    ensures
        match r {
            Ok(v) => spec_edited_tags_answer(answer@, current.deep_view()) == Ok::<Seq<Seq<char>>, Seq<char>>(
                v.deep_view(),
            ),
            Err(e) => spec_edited_tags_answer(answer@, current.deep_view()) == Err::<Seq<Seq<char>>, Seq<char>>(e@),
        },
{
    let t = trim_str(answer);
    if t.as_str().unicode_len() == 0 {
        Ok(clone_strings(current))
    } else {
        parse_tag_list(answer)
    }
}

/// The message when a tunnel name is taken: the tunnel that has it, the
/// kind of its file and the file (shown with `home` shortened to `~`).
pub open spec fn spec_name_taken_message(c: ResolvedModel, home: Seq<char>) -> Seq<char> {
    "Tunnel name is already used: "@ + c.tunnel.name + " ("@ + kind_label(c.source.kind) + ": "@ + spec_display_path(
        c.source.path,
        home,
    ) + ")"@
}

/// The message when a tunnel name is taken by `conflict`.
pub fn name_taken_message(conflict: &ResolvedTunnelConfig, home: &str) -> (r: String)
    ensures
        r@ == spec_name_taken_message(conflict@, home@),
{
    let a = concat_str("Tunnel name is already used: ", conflict.tunnel.name.as_str());
    let b = concat_str(a.as_str(), " (");
    let c = concat_str(b.as_str(), conflict.source.kind.label().as_str());
    let d = concat_str(c.as_str(), ": ");
    let e = concat_str(d.as_str(), format_path_for_display_with_home(conflict.source.path.as_str(), home).as_str());
    concat_str(e.as_str(), ")")
}

/// The message when a local port is taken: the tunnel that has it and its
/// local endpoint.
pub open spec fn spec_port_taken_message(c: ResolvedModel) -> Seq<char> {
    "Local port is already used by tunnel: "@ + c.tunnel.name + " ("@ + endpoint_text(
        spec_effective_local_host(c.tunnel),
        c.tunnel.local_port,
    ) + ")"@
}

/// The message when a local port is taken by `conflict`.
pub fn port_taken_message(conflict: &ResolvedTunnelConfig) -> (r: String)
    ensures
        r@ == spec_port_taken_message(conflict@),
{
    let a = concat_str("Local port is already used by tunnel: ", conflict.tunnel.name.as_str());
    let b = concat_str(a.as_str(), " (");
    let c = concat_str(b.as_str(), format_local_endpoint(&conflict.tunnel).as_str());
    concat_str(c.as_str(), ")")
}

} // verus!
