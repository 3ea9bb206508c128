use vstd::prelude::*;

use crate::scan::{
    skip_trivia, spec_skip_trivia, lemma_skip_trivia_bounds, scan_ident, spec_has_ident,
    spec_ident_text, spec_ident_end, lemma_ident_end_bounds, scan_string, spec_scan_string,
    lemma_scan_string_bounds,
};
use crate::params::ParamMap;
use crate::render::{render, spec_rendered};
use crate::strutil::{str_eq, to_chars};
use vstd::string::StrSliceExecFns;
use vstd::string::StringSliceAdditionalSpecFns;
use vstd::utf8::encode_utf8;

verus! {

/// A structured parse failure: where in the source it happened and a
/// short description.
#[derive(Debug)]
pub struct ParseError {
    pub pos: usize,
    pub message: String,
}

impl ParseError {
    pub fn new(pos: usize, message: &str) -> (r: ParseError)
        ensures
            r.pos == pos,
    {
        ParseError { pos, message: String::from_str(message) }
    }
}

/// Abstract value of a `Script`.
#[verifier::ext_equal]
pub struct SpecScript {
    pub inline: Option<Seq<char>>,
    pub file: Option<Seq<char>>,
}

/// Abstract value of a `Task`.
#[verifier::ext_equal]
pub struct SpecTask {
    pub name: Seq<char>,
    pub script: SpecScript,
}

pub open spec fn opt_view(o: Option<String>) -> Option<Seq<char>> {
    match o {
        Some(s) => Some(s@),
        None => None,
    }
}

/// Something that can be executed on a remote host: an inline piece of
/// shell to be rendered with parameters, or a file to transfer and run.
#[derive(Clone, Debug)]
pub struct Script {
    pub inline: Option<String>,
    pub file: Option<String>,
}

impl View for Script {
    type V = SpecScript;

    open spec fn view(&self) -> SpecScript {
        SpecScript { inline: opt_view(self.inline), file: opt_view(self.file) }
    }
}

impl Script {
    /// A script with neither an inline body nor a file.
    pub fn new() -> (r: Self)
        ensures
            r@.inline is None,
            r@.file is None,
    {
        Script { inline: None, file: None }
    }

    /// Whether this script is backed by a file.
    pub fn has_file(&self) -> (r: bool)
        ensures
            r == (self@.file is Some),
    {
        self.file.is_some()
    }

    /// The bytes to execute: the file's contents when this is a
    /// file-backed script and they could be read; otherwise the inline
    /// text, rendered against the parameters when any are given.  `None`
    /// when no script body exists — an error to the caller, not a panic.
    pub fn as_bytes(&self, parameters: Option<&ParamMap>, file_contents: Option<Vec<u8>>) -> (r:
        Option<Vec<u8>>)
        ensures
            match r {
                Some(b) => spec_materialized(
                    self@,
                    opt_param_view(parameters),
                    opt_bytes_view(file_contents),
                ) == Some(b@),
                None => spec_materialized(
                    self@,
                    opt_param_view(parameters),
                    opt_bytes_view(file_contents),
                ) is None,
            },
    {
        if self.file.is_some() && file_contents.is_some() {
            return file_contents;
        }
        match &self.inline {
            Some(t) => {
                match parameters {
                    None => Some(t.as_str().as_bytes_vec()),
                    Some(m) => {
                        let rendered = render(t.as_str(), m);
                        Some(rendered.as_str().as_bytes_vec())
                    },
                }
            },
            None => None,
        }
    }
}

pub open spec fn opt_param_view(p: Option<&ParamMap>) -> Option<Map<Seq<char>, Seq<char>>> {
    match p {
        Some(m) => Some(m@),
        None => None,
    }
}

pub open spec fn opt_bytes_view(o: Option<Vec<u8>>) -> Option<Seq<u8>> {
    match o {
        Some(b) => Some(b@),
        None => None,
    }
}

/// What a script materializes to, per the rules of `Script::as_bytes`.
pub open spec fn spec_materialized(
    script: SpecScript,
    parameters: Option<Map<Seq<char>, Seq<char>>>,
    file_contents: Option<Seq<u8>>,
) -> Option<Seq<u8>> {
    if script.file is Some && file_contents is Some {
        Some(file_contents->0)
    } else {
        match script.inline {
            Some(t) => match parameters {
                None => Some(encode_utf8(t)),
                Some(m) => Some(encode_utf8(spec_rendered(t, m))),
            },
            None => None,
        }
    }
}

/// A named, parameterizable unit of remote work.
#[derive(Clone, Debug)]
pub struct Task {
    pub name: String,
    pub script: Script,
}

impl View for Task {
    type V = SpecTask;

    open spec fn view(&self) -> SpecTask {
        SpecTask { name: self.name@, script: self.script@ }
    }
}

// ---------------------------------------------------------------------
// The task grammar:
//
//   task <Identifier> {
//       [ parameters { ( <Identifier> { ( <Identifier> = <value> )* } )* } ]
//       [ script { ( inline = <string> | file = <string> )* } ]
//   }
//
// A value is a string literal or a bare identifier (`true`, `string`).
// Parameter declarations are read for forward compatibility but do not
// constrain execution.  A task block without a script body still parses;
// materialization reports the missing script later.
// ---------------------------------------------------------------------

/// A parameter value: a string literal or a bare identifier.  Returns
/// the position just after the value.
pub open spec fn spec_parse_param_value(s: Seq<char>, i: int) -> Option<int> {
    let j = spec_skip_trivia(s, i, false);
    if spec_scan_string(s, j) is Some {
        Some((spec_scan_string(s, j)->0).1)
    } else if spec_has_ident(s, j) {
        Some(spec_ident_end(s, j))
    } else {
        None
    }
}

pub proof fn lemma_parse_param_value_bounds(s: Seq<char>, i: int)
    requires
        0 <= i <= s.len(),
    ensures
        match spec_parse_param_value(s, i) {
            Some(k) => i < k <= s.len(),
            None => true,
        },
{
    lemma_skip_trivia_bounds(s, i, false);
    let j = spec_skip_trivia(s, i, false);
    lemma_scan_string_bounds(s, j);
    lemma_ident_end_bounds(s, j);
}

/// The `<Identifier> = <value>` pairs of one parameter declaration, up
/// to and including the closing `}`.
pub open spec fn spec_parse_param_kvs(s: Seq<char>, i: int) -> Option<int>
    decreases s.len() - i,
    via spec_parse_param_kvs_decreases
{
    let j = spec_skip_trivia(s, i, false);
    if 0 <= j < s.len() && s[j] == '}' {
        Some(j + 1)
    } else if spec_has_ident(s, j) {
        let e = spec_ident_end(s, j);
        let j2 = spec_skip_trivia(s, e, false);
        if 0 <= j2 < s.len() && s[j2] == '=' {
            match spec_parse_param_value(s, j2 + 1) {
                Some(k) => spec_parse_param_kvs(s, k),
                None => None,
            }
        } else {
            None
        }
    } else {
        None
    }
}

#[via_fn]
proof fn spec_parse_param_kvs_decreases(s: Seq<char>, i: int) {
    let j = spec_skip_trivia(s, i, false);
    if spec_has_ident(s, j) {
        if 0 <= i <= s.len() {
            lemma_skip_trivia_bounds(s, i, false);
        }
        lemma_ident_end_bounds(s, j);
        let e = spec_ident_end(s, j);
        lemma_skip_trivia_bounds(s, e, false);
        let j2 = spec_skip_trivia(s, e, false);
        if 0 <= j2 < s.len() && s[j2] == '=' {
            lemma_parse_param_value_bounds(s, j2 + 1);
        }
    }
}

pub proof fn lemma_parse_param_kvs_bounds(s: Seq<char>, i: int)
    requires
        0 <= i <= s.len(),
    ensures
        match spec_parse_param_kvs(s, i) {
            Some(k) => i < k <= s.len(),
            None => true,
        },
    decreases s.len() - i,
{
    lemma_skip_trivia_bounds(s, i, false);
    let j = spec_skip_trivia(s, i, false);
    if 0 <= j < s.len() && s[j] == '}' {
    } else if spec_has_ident(s, j) {
        lemma_ident_end_bounds(s, j);
        let e = spec_ident_end(s, j);
        lemma_skip_trivia_bounds(s, e, false);
        let j2 = spec_skip_trivia(s, e, false);
        if 0 <= j2 < s.len() && s[j2] == '=' {
            lemma_parse_param_value_bounds(s, j2 + 1);
            match spec_parse_param_value(s, j2 + 1) {
                Some(k) => lemma_parse_param_kvs_bounds(s, k),
                None => {},
            }
        }
    }
}

/// The parameter declarations of a `parameters` block, up to and
/// including the block's closing `}`.
pub open spec fn spec_parse_param_decls(s: Seq<char>, i: int) -> Option<int>
    decreases s.len() - i,
    via spec_parse_param_decls_decreases
{
    let j = spec_skip_trivia(s, i, false);
    if 0 <= j < s.len() && s[j] == '}' {
        Some(j + 1)
    } else if spec_has_ident(s, j) {
        let e = spec_ident_end(s, j);
        let j2 = spec_skip_trivia(s, e, false);
        if 0 <= j2 < s.len() && s[j2] == '{' {
            match spec_parse_param_kvs(s, j2 + 1) {
                Some(k) => spec_parse_param_decls(s, k),
                None => None,
            }
        } else {
            None
        }
    } else {
        None
    }
}

#[via_fn]
proof fn spec_parse_param_decls_decreases(s: Seq<char>, i: int) {
    let j = spec_skip_trivia(s, i, false);
    if spec_has_ident(s, j) {
        if 0 <= i <= s.len() {
            lemma_skip_trivia_bounds(s, i, false);
        }
        lemma_ident_end_bounds(s, j);
        let e = spec_ident_end(s, j);
        lemma_skip_trivia_bounds(s, e, false);
        let j2 = spec_skip_trivia(s, e, false);
        if 0 <= j2 < s.len() && s[j2] == '{' {
            lemma_parse_param_kvs_bounds(s, j2 + 1);
        }
    }
}

pub proof fn lemma_parse_param_decls_bounds(s: Seq<char>, i: int)
    requires
        0 <= i <= s.len(),
    ensures
        match spec_parse_param_decls(s, i) {
            Some(k) => i < k <= s.len(),
            None => true,
        },
    decreases s.len() - i,
{
    lemma_skip_trivia_bounds(s, i, false);
    let j = spec_skip_trivia(s, i, false);
    if 0 <= j < s.len() && s[j] == '}' {
    } else if spec_has_ident(s, j) {
        lemma_ident_end_bounds(s, j);
        let e = spec_ident_end(s, j);
        lemma_skip_trivia_bounds(s, e, false);
        let j2 = spec_skip_trivia(s, e, false);
        if 0 <= j2 < s.len() && s[j2] == '{' {
            lemma_parse_param_kvs_bounds(s, j2 + 1);
            match spec_parse_param_kvs(s, j2 + 1) {
                Some(k) => lemma_parse_param_decls_bounds(s, k),
                None => {},
            }
        }
    }
}

/// The entries of a `script` block, up to and including the closing
/// `}`.  Later entries overwrite earlier ones of the same kind.
pub open spec fn spec_parse_script_entries(
    s: Seq<char>,
    i: int,
    inline: Option<Seq<char>>,
    file: Option<Seq<char>>,
) -> Option<(Option<Seq<char>>, Option<Seq<char>>, int)>
    decreases s.len() - i,
    via spec_parse_script_entries_decreases
{
    let j = spec_skip_trivia(s, i, false);
    if 0 <= j < s.len() && s[j] == '}' {
        Some((inline, file, j + 1))
    } else if spec_has_ident(s, j) {
        let text = spec_ident_text(s, j);
        let e = spec_ident_end(s, j);
        let j2 = spec_skip_trivia(s, e, false);
        if 0 <= j2 < s.len() && s[j2] == '=' {
            let j3 = spec_skip_trivia(s, j2 + 1, false);
            match spec_scan_string(s, j3) {
                Some(v) => if text == "inline"@ {
                    spec_parse_script_entries(s, v.1, Some(v.0), file)
                } else if text == "file"@ {
                    spec_parse_script_entries(s, v.1, inline, Some(v.0))
                } else {
                    None
                },
                None => None,
            }
        } else {
            None
        }
    } else {
        None
    }
}

#[via_fn]
proof fn spec_parse_script_entries_decreases(
    s: Seq<char>,
    i: int,
    inline: Option<Seq<char>>,
    file: Option<Seq<char>>,
) {
    let j = spec_skip_trivia(s, i, false);
    if spec_has_ident(s, j) {
        if 0 <= i <= s.len() {
            lemma_skip_trivia_bounds(s, i, false);
        }
        lemma_ident_end_bounds(s, j);
        let e = spec_ident_end(s, j);
        lemma_skip_trivia_bounds(s, e, false);
        let j2 = spec_skip_trivia(s, e, false);
        if 0 <= j2 < s.len() && s[j2] == '=' {
            lemma_skip_trivia_bounds(s, j2 + 1, false);
            let j3 = spec_skip_trivia(s, j2 + 1, false);
            lemma_scan_string_bounds(s, j3);
        }
    }
}

pub proof fn lemma_parse_script_entries_bounds(
    s: Seq<char>,
    i: int,
    inline: Option<Seq<char>>,
    file: Option<Seq<char>>,
)
    requires
        0 <= i <= s.len(),
    ensures
        match spec_parse_script_entries(s, i, inline, file) {
            Some(r) => i < r.2 <= s.len(),
            None => true,
        },
    decreases s.len() - i,
{
    lemma_skip_trivia_bounds(s, i, false);
    let j = spec_skip_trivia(s, i, false);
    if 0 <= j < s.len() && s[j] == '}' {
    } else if spec_has_ident(s, j) {
        let text = spec_ident_text(s, j);
        lemma_ident_end_bounds(s, j);
        let e = spec_ident_end(s, j);
        lemma_skip_trivia_bounds(s, e, false);
        let j2 = spec_skip_trivia(s, e, false);
        if 0 <= j2 < s.len() && s[j2] == '=' {
            lemma_skip_trivia_bounds(s, j2 + 1, false);
            let j3 = spec_skip_trivia(s, j2 + 1, false);
            lemma_scan_string_bounds(s, j3);
            match spec_scan_string(s, j3) {
                Some(v) => {
                    if text == "inline"@ {
                        lemma_parse_script_entries_bounds(s, v.1, Some(v.0), file);
                    } else if text == "file"@ {
                        lemma_parse_script_entries_bounds(s, v.1, inline, Some(v.0));
                    }
                },
                None => {},
            }
        }
    }
}

/// The whole task source: the grammar above, with only trivia allowed
/// after the closing `}`.
pub open spec fn spec_parse_task(s: Seq<char>) -> Option<SpecTask> {
    let i0 = spec_skip_trivia(s, 0, false);
    if spec_has_ident(s, i0) && spec_ident_text(s, i0) == "task"@ {
        let i1 = spec_ident_end(s, i0);
        let i2 = spec_skip_trivia(s, i1, false);
        if spec_has_ident(s, i2) {
            let name = spec_ident_text(s, i2);
            let i3 = spec_ident_end(s, i2);
            let i4 = spec_skip_trivia(s, i3, false);
            if 0 <= i4 < s.len() && s[i4] == '{' {
                let i5 = spec_skip_trivia(s, i4 + 1, false);
                let after_params = if spec_has_ident(s, i5) && spec_ident_text(s, i5)
                    == "parameters"@ {
                    let e = spec_ident_end(s, i5);
                    let b = spec_skip_trivia(s, e, false);
                    if 0 <= b < s.len() && s[b] == '{' {
                        spec_parse_param_decls(s, b + 1)
                    } else {
                        None
                    }
                } else {
                    Some(i5)
                };
                match after_params {
                    Some(i6) => {
                        let j = spec_skip_trivia(s, i6, false);
                        let script_part = if spec_has_ident(s, j) && spec_ident_text(s, j)
                            == "script"@ {
                            let e2 = spec_ident_end(s, j);
                            let b2 = spec_skip_trivia(s, e2, false);
                            if 0 <= b2 < s.len() && s[b2] == '{' {
                                spec_parse_script_entries(s, b2 + 1, None, None)
                            } else {
                                None
                            }
                        } else {
                            Some((None, None, j))
                        };
                        match script_part {
                            Some((inline, file, k)) => {
                                let m = spec_skip_trivia(s, k, false);
                                if 0 <= m < s.len() && s[m] == '}' {
                                    if spec_skip_trivia(s, m + 1, false) == s.len() {
                                        Some(
                                            SpecTask {
                                                name,
                                                script: SpecScript { inline, file },
                                            },
                                        )
                                    } else {
                                        None
                                    }
                                } else {
                                    None
                                }
                            },
                            None => None,
                        }
                    },
                    None => None,
                }
            } else {
                None
            }
        } else {
            None
        }
    } else {
        None
    }
}

// ---------------------------------------------------------------------
// The executable parser, proved equal to the grammar above.
// ---------------------------------------------------------------------

fn parse_param_value(s: &Vec<char>, pos: usize) -> (r: Result<usize, ParseError>)
    requires
        pos <= s@.len(),
    ensures
        match r {
            Ok(k) => spec_parse_param_value(s@, pos as int) == Some(k as int) && pos < k
                <= s@.len(),
            Err(_) => spec_parse_param_value(s@, pos as int) is None,
        },
{
    proof {
        lemma_parse_param_value_bounds(s@, pos as int);
    }
    let j = skip_trivia(s, pos);
    match scan_string(s, j) {
        Some((_, k)) => Ok(k),
        None => {
            match scan_ident(s, j) {
                Some((_, e)) => Ok(e),
                None => Err(ParseError::new(j, "expected a value")),
            }
        },
    }
}

fn parse_param_kvs(s: &Vec<char>, pos: usize) -> (r: Result<usize, ParseError>)
    requires
        pos <= s@.len(),
    ensures
        match r {
            Ok(k) => spec_parse_param_kvs(s@, pos as int) == Some(k as int) && pos < k <= s@.len(),
            Err(_) => spec_parse_param_kvs(s@, pos as int) is None,
        },
    decreases s@.len() - pos,
{
    proof {
        lemma_parse_param_kvs_bounds(s@, pos as int);
    }
    let j = skip_trivia(s, pos);
    if j < s.len() && s[j] == '}' {
        return Ok(j + 1);
    }
    match scan_ident(s, j) {
        Some((_, e)) => {
            let j2 = skip_trivia(s, e);
            if j2 < s.len() && s[j2] == '=' {
                match parse_param_value(s, j2 + 1) {
                    Ok(k) => parse_param_kvs(s, k),
                    Err(err) => Err(err),
                }
            } else {
                Err(ParseError::new(j2, "expected `=` in a parameter entry"))
            }
        },
        None => Err(ParseError::new(j, "expected `}` or a parameter entry")),
    }
}

fn parse_param_decls(s: &Vec<char>, pos: usize) -> (r: Result<usize, ParseError>)
    requires
        pos <= s@.len(),
    ensures
        match r {
            Ok(k) => spec_parse_param_decls(s@, pos as int) == Some(k as int) && pos < k
                <= s@.len(),
            Err(_) => spec_parse_param_decls(s@, pos as int) is None,
        },
    decreases s@.len() - pos,
{
    proof {
        lemma_parse_param_decls_bounds(s@, pos as int);
    }
    let j = skip_trivia(s, pos);
    if j < s.len() && s[j] == '}' {
        return Ok(j + 1);
    }
    match scan_ident(s, j) {
        Some((_, e)) => {
            let j2 = skip_trivia(s, e);
            if j2 < s.len() && s[j2] == '{' {
                match parse_param_kvs(s, j2 + 1) {
                    Ok(k) => parse_param_decls(s, k),
                    Err(err) => Err(err),
                }
            } else {
                Err(ParseError::new(j2, "expected `{` after a parameter name"))
            }
        },
        None => Err(ParseError::new(j, "expected `}` or a parameter declaration")),
    }
}

fn parse_script_entries(
    s: &Vec<char>,
    pos: usize,
    inline: Option<String>,
    file: Option<String>,
) -> (r: Result<(Option<String>, Option<String>, usize), ParseError>)
    requires
        pos <= s@.len(),
    ensures
        match r {
            Ok((inl, fl, k)) => spec_parse_script_entries(
                s@,
                pos as int,
                opt_view(inline),
                opt_view(file),
            ) == Some((opt_view(inl), opt_view(fl), k as int)) && pos < k <= s@.len(),
            Err(_) => spec_parse_script_entries(s@, pos as int, opt_view(inline), opt_view(file))
                is None,
        },
    decreases s@.len() - pos,
{
    proof {
        lemma_parse_script_entries_bounds(s@, pos as int, opt_view(inline), opt_view(file));
    }
    let j = skip_trivia(s, pos);
    if j < s.len() && s[j] == '}' {
        return Ok((inline, file, j + 1));
    }
    match scan_ident(s, j) {
        Some((text, e)) => {
            let j2 = skip_trivia(s, e);
            if j2 < s.len() && s[j2] == '=' {
                let j3 = skip_trivia(s, j2 + 1);
                match scan_string(s, j3) {
                    Some((value, k)) => {
                        if str_eq(text.as_str(), "inline") {
                            parse_script_entries(s, k, Some(value), file)
                        } else if str_eq(text.as_str(), "file") {
                            parse_script_entries(s, k, inline, Some(value))
                        } else {
                            Err(ParseError::new(j, "expected `inline` or `file`"))
                        }
                    },
                    None => Err(ParseError::new(j3, "expected a string literal")),
                }
            } else {
                Err(ParseError::new(j2, "expected `=` in a script entry"))
            }
        },
        None => Err(ParseError::new(j, "expected `}` or a script entry")),
    }
}

fn parse_task_chars(s: &Vec<char>) -> (r: Result<Task, ParseError>)
    ensures
        match r {
            Ok(t) => spec_parse_task(s@) == Some(t@),
            Err(_) => spec_parse_task(s@) is None,
        },
{
    let i0 = skip_trivia(s, 0);
    let kw = match scan_ident(s, i0) {
        Some(pair) => pair,
        None => {
            return Err(ParseError::new(i0, "expected `task`"));
        },
    };
    if !str_eq(kw.0.as_str(), "task") {
        return Err(ParseError::new(i0, "expected `task`"));
    }
    let i1 = kw.1;
    let i2 = skip_trivia(s, i1);
    let (name, i3) = match scan_ident(s, i2) {
        Some(pair) => pair,
        None => {
            return Err(ParseError::new(i2, "expected a task name"));
        },
    };
    let i4 = skip_trivia(s, i3);
    if !(i4 < s.len() && s[i4] == '{') {
        return Err(ParseError::new(i4, "expected `{`"));
    }
    let i5 = skip_trivia(s, i4 + 1);
    let has_params = match scan_ident(s, i5) {
        Some(pair) => str_eq(pair.0.as_str(), "parameters"),
        None => false,
    };
    let i6 = if has_params {
        let e = match scan_ident(s, i5) {
            Some(pair) => pair.1,
            None => i5,
        };
        let b = skip_trivia(s, e);
        if !(b < s.len() && s[b] == '{') {
            return Err(ParseError::new(b, "expected `{` after `parameters`"));
        }
        match parse_param_decls(s, b + 1) {
            Ok(k) => k,
            Err(err) => {
                return Err(err);
            },
        }
    } else {
        i5
    };
    let j = skip_trivia(s, i6);
    let has_script = match scan_ident(s, j) {
        Some(pair) => str_eq(pair.0.as_str(), "script"),
        None => false,
    };
    let (inline, file, k) = if has_script {
        let e2 = match scan_ident(s, j) {
            Some(pair) => pair.1,
            None => j,
        };
        let b2 = skip_trivia(s, e2);
        if !(b2 < s.len() && s[b2] == '{') {
            return Err(ParseError::new(b2, "expected `{` after `script`"));
        }
        match parse_script_entries(s, b2 + 1, None, None) {
            Ok(triple) => triple,
            Err(err) => {
                return Err(err);
            },
        }
    } else {
        (None, None, j)
    };
    let m = skip_trivia(s, k);
    if !(m < s.len() && s[m] == '}') {
        return Err(ParseError::new(m, "expected `}`"));
    }
    let tail = skip_trivia(s, m + 1);
    if tail != s.len() {
        return Err(ParseError::new(tail, "unexpected text after the task"));
    }
    Ok(Task { name, script: Script { inline, file } })
}

impl Task {
    /// A task with the given name and an empty script.
    pub fn new(name: &str) -> (r: Self)
        ensures
            r@.name == name@,
            r@.script.inline is None,
            r@.script.file is None,
    {
        Task { name: String::from_str(name), script: Script::new() }
    }

    /// Parse a task definition from source text.  Succeeds exactly when
    /// the text matches the task grammar.
    pub fn from_str(buf: &str) -> (r: Result<Self, ParseError>)
        ensures
            match r {
                Ok(t) => spec_parse_task(buf@) == Some(t@),
                Err(_) => spec_parse_task(buf@) is None,
            },
    {
        let chars = to_chars(buf);
        parse_task_chars(&chars)
    }
}

} // verus!
