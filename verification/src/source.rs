use vstd::prelude::*;

use crate::scan::{
    is_ident_char, is_ident_start_char, is_space_char, lemma_ident_ends, lemma_scan_single_quoted,
    lemma_trivia_at_token, lemma_trivia_space_then_token, spec_has_ident, spec_ident_end,
    spec_ident_text, spec_scan_string, spec_skip_trivia, spec_triple_at,
};
use crate::task::{
    spec_parse_script_entries, spec_parse_task, SpecScript, SpecTask, Task,
};
use vstd::string::StringExecFns;

verus! {

/// The source text of a script's entries: the inline body, then the
/// file path, each single-quoted.
pub open spec fn spec_entries_source(script: SpecScript) -> Seq<char> {
    (match script.inline {
        Some(x) => "inline='"@ + x + "'"@,
        None => Seq::empty(),
    }) + (match script.file {
        Some(f) => "file='"@ + f + "'"@,
        None => Seq::empty(),
    })
}

/// The source text of a script block; a script with no body at all
/// writes back as an empty task body.
pub open spec fn spec_script_source(script: SpecScript) -> Seq<char> {
    if script.inline is None && script.file is None {
        "{}"@
    } else {
        "{script{"@ + spec_entries_source(script) + "}}"@
    }
}

/// The canonical source text of a task.
pub open spec fn spec_task_source(t: SpecTask) -> Seq<char> {
    "task "@ + t.name + spec_script_source(t.script)
}

/// Whether a task can be written back as source and read again: the
/// name is an identifier, and the script texts hold no single quote.
pub open spec fn spec_writable(t: SpecTask) -> bool {
    &&& t.name.len() as int > 0
    &&& is_ident_start_char(t.name[0])
    &&& forall|k: int| 0 <= k < t.name.len() as int ==> is_ident_char(#[trigger] t.name[k])
    &&& (match t.script.inline {
        Some(x) => forall|k: int| 0 <= k < x.len() ==> (#[trigger] x[k]) != '\'',
        None => true,
    })
    &&& (match t.script.file {
        Some(f) => forall|k: int| 0 <= k < f.len() ==> (#[trigger] f[k]) != '\'',
        None => true,
    })
}

impl Task {
    /// Write the task back as source text, in the canonical form that
    /// `spec_task_source` gives.
    pub fn to_source(&self) -> (r: String)
        ensures
            r@ == spec_task_source(self@),
    {
        let mut out = String::from_str("task ");
        out.append(self.name.as_str());
        if self.script.inline.is_none() && self.script.file.is_none() {
            out.append("{}");
            assert(out@ =~= spec_task_source(self@));
            return out;
        }
        out.append("{script{");
        match &self.script.inline {
            Some(x) => {
                out.append("inline='");
                out.append(x.as_str());
                out.append("'");
            },
            None => {},
        }
        match &self.script.file {
            Some(f) => {
                out.append("file='");
                out.append(f.as_str());
                out.append("'");
            },
            None => {},
        }
        out.append("}}");
        assert(out@ =~= spec_task_source(self@));
        out
    }
}

/// The leading `task <Name> {` of the canonical source scans as the
/// grammar expects.
proof fn lemma_prefix_parse(t: SpecTask)
    requires
        spec_writable(t),
    ensures
        spec_skip_trivia(spec_task_source(t), 0, false) == 0,
        spec_has_ident(spec_task_source(t), 0),
        spec_ident_text(spec_task_source(t), 0) == "task"@,
        spec_ident_end(spec_task_source(t), 0) == 4,
        spec_skip_trivia(spec_task_source(t), 4, false) == 5,
        spec_has_ident(spec_task_source(t), 5),
        spec_ident_text(spec_task_source(t), 5) == t.name,
        spec_ident_end(spec_task_source(t), 5) == 5 + t.name.len() as int,
        spec_skip_trivia(spec_task_source(t), 5 + t.name.len() as int, false) == 5 + t.name.len() as int,
        spec_task_source(t).len() as int > 5 + t.name.len() as int,
        spec_task_source(t)[5 + t.name.len() as int] == '{',
        spec_task_source(t).len() as int == 5 + t.name.len() as int + spec_script_source(t.script).len() as int,
{
    reveal_strlit("task ");
    reveal_strlit("task");
    reveal_strlit("{}");
    reveal_strlit("{script{");

    let s = spec_task_source(t);
    let n = t.name.len() as int;
    let body = spec_script_source(t.script);

    assert(s.len() == 5 + n + body.len());
    assert(body[0] == '{');
    assert(s[5 + n] == '{');

    lemma_trivia_at_token(s, 0);
    assert forall|k: int| 0 <= k < 4 implies is_ident_char(s[k]) by {
        assert(s[k] == "task "@[k]);
    }
    assert(s[4] == ' ');
    assert(!is_ident_char(' ') && !is_space_char('t'));
    lemma_ident_ends(s, 0, 4);
    assert(spec_ident_text(s, 0) =~= "task"@);
    assert(s[5] == t.name[0]);
    lemma_trivia_space_then_token(s, 4);
    assert(!is_ident_char('{'));
    assert forall|k: int| 5 <= k < 5 + n implies is_ident_char(s[k]) by {
        assert(s[k] == t.name[k - 5]);
    }
    lemma_ident_ends(s, 5, 5 + n);
    assert(spec_ident_text(s, 5) =~= t.name);
    lemma_trivia_at_token(s, 5 + n);
}

/// A task without any script body writes as `{}`, which scans as an
/// empty task body.
proof fn lemma_empty_body_parse(t: SpecTask)
    requires
        spec_writable(t),
        t.script.inline is None,
        t.script.file is None,
    ensures
        spec_task_source(t).len() as int == 7 + t.name.len() as int,
        spec_skip_trivia(spec_task_source(t), 6 + t.name.len() as int, false) == 6 + t.name.len() as int,
        !spec_has_ident(spec_task_source(t), 6 + t.name.len() as int),
        spec_task_source(t)[6 + t.name.len() as int] == '}',
        spec_skip_trivia(spec_task_source(t), 7 + t.name.len() as int, false) == 7 + t.name.len() as int,
{
    reveal_strlit("task ");
    reveal_strlit("{}");
    let s = spec_task_source(t);
    let n = t.name.len() as int;
    assert(spec_script_source(t.script) =~= "{}"@);
    assert(s.len() == 7 + n);
    assert(s[6 + n] == '}');
    lemma_trivia_at_token(s, 6 + n);
    lemma_trivia_at_token(s, 7 + n);
}

/// A task with a script body writes as `{script{...}}`, whose block
/// scans back to exactly the inline and file fields.
#[verifier::rlimit(100)]
proof fn lemma_script_body_parse(t: SpecTask)
    requires
        spec_writable(t),
        !(t.script.inline is None && t.script.file is None),
    ensures
        spec_task_source(t).len() as int == 15 + t.name.len() as int + spec_entries_source(t.script).len() as int,
        spec_skip_trivia(spec_task_source(t), 6 + t.name.len() as int, false) == 6 + t.name.len() as int,
        spec_has_ident(spec_task_source(t), 6 + t.name.len() as int),
        spec_ident_text(spec_task_source(t), 6 + t.name.len() as int) == "script"@,
        spec_ident_text(spec_task_source(t), 6 + t.name.len() as int) != "parameters"@,
        spec_ident_end(spec_task_source(t), 6 + t.name.len() as int) == 12 + t.name.len() as int,
        spec_skip_trivia(spec_task_source(t), 12 + t.name.len() as int, false) == 12 + t.name.len() as int,
        spec_task_source(t)[12 + t.name.len() as int] == '{',
        spec_parse_script_entries(spec_task_source(t), 13 + t.name.len() as int, None, None) == Some(
            (
                t.script.inline,
                t.script.file,
                14 + t.name.len() as int + spec_entries_source(t.script).len() as int,
            ),
        ),
        spec_skip_trivia(
            spec_task_source(t),
            14 + t.name.len() as int + spec_entries_source(t.script).len() as int,
            false,
        ) == 14 + t.name.len() as int + spec_entries_source(t.script).len() as int,
        spec_task_source(t)[14 + t.name.len() as int + spec_entries_source(t.script).len() as int] == '}',
        spec_skip_trivia(
            spec_task_source(t),
            15 + t.name.len() as int + spec_entries_source(t.script).len() as int,
            false,
        ) == spec_task_source(t).len() as int,
{
    reveal_strlit("task ");
    reveal_strlit("parameters");
    reveal_strlit("script");
    reveal_strlit("{script{");
    reveal_strlit("}}");

    let s = spec_task_source(t);
    let n = t.name.len() as int;
    let body = spec_script_source(t.script);
    let entries = spec_entries_source(t.script);
    let e = entries.len() as int;

    assert(body == "{script{"@ + entries + "}}"@);
    assert(s.len() == 15 + n + e);
    assert forall|k: int| 5 + n <= k < s.len() implies s[k] == body[k - 5 - n] by {}
    assert forall|k: int| 6 + n <= k < 13 + n implies s[k] == "{script{"@[k - 5 - n] by {
        assert(s[k] == body[k - 5 - n]);
    }
    assert forall|k: int| 13 + n <= k < 13 + n + e implies s[k] == entries[k - 13 - n] by {
        assert(s[k] == body[k - 5 - n]);
        assert(body[k - 5 - n] == entries[k - 13 - n]);
    }
    assert(s[13 + n + e] == '}') by {
        assert(s[13 + n + e] == body[8 + e]);
    }
    assert(s[14 + n + e] == '}') by {
        assert(s[14 + n + e] == body[9 + e]);
    }

    lemma_trivia_at_token(s, 6 + n);
    assert forall|k: int| 6 + n <= k < 12 + n implies is_ident_char(s[k]) by {
        assert(s[k] == "{script{"@[k - 5 - n]);
    }
    assert(s[12 + n] == '{');
    lemma_ident_ends(s, 6 + n, 12 + n);
    assert(spec_ident_text(s, 6 + n) =~= "script"@);
    assert(spec_ident_text(s, 6 + n) != "parameters"@) by {
        assert("script"@.len() != "parameters"@.len());
    }
    lemma_trivia_at_token(s, 12 + n);

    lemma_entries_parse(s, 13 + n, t.script);
    lemma_trivia_at_token(s, 14 + n + e);
    lemma_trivia_at_token(s, 15 + n + e);
}

/// Round trip: any writable task parses back from its own source text
/// to exactly the same value.
#[verifier::rlimit(100)]
pub proof fn lemma_task_round_trip(t: SpecTask)
    requires
        spec_writable(t),
    ensures
        spec_parse_task(spec_task_source(t)) == Some(t),
{
    let s = spec_task_source(t);
    let n = t.name.len() as int;
    lemma_prefix_parse(t);
    assert(SpecScript { inline: t.script.inline, file: t.script.file } =~= t.script);
    assert(SpecTask { name: t.name, script: t.script } =~= t);
    if t.script.inline is None && t.script.file is None {
        lemma_empty_body_parse(t);
        assert(spec_parse_task(s) == Some(t));
    } else {
        lemma_script_body_parse(t);
        assert(spec_parse_task(s) == Some(t));
    }
}

/// One single-quoted `<kw>='<text>'` entry beginning at `p` scans as
/// expected: the keyword identifier, the `=`, and the quoted text.
proof fn lemma_entry_scans(s: Seq<char>, p: int, kw: Seq<char>, text: Seq<char>)
    requires
        0 <= p,
        p + kw.len() + 2 + text.len() + 1 <= s.len(),
        kw.len() > 0,
        is_ident_start_char(kw[0]),
        forall|k: int| 0 <= k < kw.len() ==> is_ident_char(#[trigger] kw[k]),
        forall|k: int| p <= k < p + kw.len() ==> #[trigger] s[k] == kw[k - p],
        s[p + kw.len()] == '=',
        s[p + kw.len() + 1] == '\'',
        forall|k: int|
            p + kw.len() + 2 <= k < p + kw.len() + 2 + text.len() ==> #[trigger] s[k] == text[k - p
                - kw.len() - 2],
        forall|k: int| 0 <= k < text.len() ==> (#[trigger] text[k]) != '\'',
        s[p + kw.len() + 2 + text.len()] == '\'',
        p + kw.len() + 3 + text.len() == s.len() || s[p + kw.len() + 3 + text.len()] != '\'',
    ensures
        spec_skip_trivia(s, p, false) == p,
        spec_has_ident(s, p),
        spec_ident_text(s, p) == kw,
        spec_ident_end(s, p) == p + kw.len(),
        spec_skip_trivia(s, p + kw.len(), false) == p + kw.len(),
        spec_skip_trivia(s, p + kw.len() + 1, false) == p + kw.len() + 1,
        spec_scan_string(s, p + kw.len() + 1) == Some((text, p + kw.len() + 3 + text.len())),
{
    let w = kw.len() as int;
    let m = text.len() as int;
    lemma_trivia_at_token(s, p);
    assert(!is_ident_char('='));
    assert forall|k: int| p <= k < p + w implies is_ident_char(s[k]) by {
        assert(s[k] == kw[k - p]);
    }
    lemma_ident_ends(s, p, p + w);
    assert(spec_ident_text(s, p) =~= kw);
    lemma_trivia_at_token(s, p + w);
    lemma_trivia_at_token(s, p + w + 1);
    assert(!spec_triple_at(s, p + w + 1)) by {
        if m > 0 {
            assert(s[p + w + 2] == text[0]);
        }
    }
    assert forall|k: int| p + w + 1 < k < p + w + 2 + m implies s[k] != '\'' by {
        assert(s[k] == text[k - p - w - 2]);
    }
    lemma_scan_single_quoted(s, p + w + 1, p + w + 2 + m);
    assert(s.subrange(p + w + 2, p + w + 2 + m) =~= text);
}

/// The serialized entries of a script parse back to exactly its inline
/// and file fields, ending just past the block's closing brace.
#[verifier::rlimit(100)]
proof fn lemma_entries_parse(s: Seq<char>, p: int, script: SpecScript)
    requires
        0 <= p,
        !(script.inline is None && script.file is None),
        (match script.inline {
            Some(x) => forall|k: int| 0 <= k < x.len() ==> (#[trigger] x[k]) != '\'',
            None => true,
        }),
        (match script.file {
            Some(f) => forall|k: int| 0 <= k < f.len() ==> (#[trigger] f[k]) != '\'',
            None => true,
        }),
        p + spec_entries_source(script).len() + 1 < s.len(),
        forall|k: int|
            p <= k < p + spec_entries_source(script).len() ==> #[trigger] s[k]
                == spec_entries_source(script)[k - p],
        s[p + spec_entries_source(script).len()] == '}',
    ensures
        spec_parse_script_entries(s, p, None, None) == Some(
            (script.inline, script.file, p + spec_entries_source(script).len() + 1),
        ),
{
    reveal_strlit("inline='");
    reveal_strlit("file='");
    reveal_strlit("'");
    reveal_strlit("inline");
    reveal_strlit("file");
    let entries = spec_entries_source(script);
    let e = entries.len() as int;

    match script.inline {
        Some(x) => {
            let m = x.len() as int;
            assert forall|k: int| p <= k < p + 6 implies s[k] == "inline"@[k - p] by {
                assert(s[k] == entries[k - p]);
                assert(entries[k - p] == "inline='"@[k - p]);
            }
            assert(s[p + 6] == '=') by {
                assert(s[p + 6] == entries[6]);
            }
            assert(s[p + 7] == '\'') by {
                assert(s[p + 7] == entries[7]);
            }
            assert forall|k: int| p + 8 <= k < p + 8 + m implies s[k] == x[k - p - 8] by {
                assert(s[k] == entries[k - p]);
            }
            assert(s[p + 8 + m] == '\'') by {
                assert(s[p + 8 + m] == entries[8 + m]);
            }
            let after_x = p + 9 + m;
            assert(after_x == s.len() || s[after_x] != '\'') by {
                match script.file {
                    Some(_) => {
                        assert(s[after_x] == entries[9 + m]);
                    },
                    None => {
                        assert(e == 9 + m);
                    },
                }
            }
            assert(is_ident_start_char('i'));
            assert(forall|k: int| 0 <= k < 6 ==> is_ident_char(#[trigger] "inline"@[k]));
            lemma_entry_scans(s, p, "inline"@, x);
            assert(spec_ident_text(s, p) != "file"@) by {
                assert("inline"@.len() != "file"@.len());
            }
            assert(s[p] == 'i');
            match script.file {
                Some(f) => {
                    let q = f.len() as int;
                    assert forall|k: int| after_x <= k < after_x + 4 implies s[k] == "file"@[k
                        - after_x] by {
                        assert(s[k] == entries[k - p]);
                        assert(entries[k - p] == "file='"@[k - p - 9 - m]);
                    }
                    assert(s[after_x + 4] == '=') by {
                        assert(s[after_x + 4] == entries[13 + m]);
                        assert(entries[13 + m] == "file='"@[4]);
                    }
                    assert(s[after_x + 5] == '\'') by {
                        assert(s[after_x + 5] == entries[14 + m]);
                        assert(entries[14 + m] == "file='"@[5]);
                    }
                    assert forall|k: int| after_x + 6 <= k < after_x + 6 + q implies s[k] == f[k
                        - after_x - 6] by {
                        assert(s[k] == entries[k - p]);
                        assert(entries[k - p] == f[k - p - 15 - m]);
                    }
                    assert(e == 16 + m + q);
                    assert(s[after_x + 6 + q] == '\'') by {
                        assert(s[after_x + 6 + q] == entries[15 + m + q]);
                    }
                    let after_f = after_x + 7 + q;
                    assert(after_f == p + e);
                    assert(s[after_f] == '}');
                    assert(is_ident_start_char('f'));
                    assert(forall|k: int| 0 <= k < 4 ==> is_ident_char(#[trigger] "file"@[k]));
                    lemma_entry_scans(s, after_x, "file"@, f);
                    assert(spec_ident_text(s, after_x) != "inline"@) by {
                        assert("file"@.len() != "inline"@.len());
                    }
                    assert(s[after_x] == 'f');
                    lemma_trivia_at_token(s, after_f);
                    assert(spec_parse_script_entries(s, after_f, Some(x), Some(f)) == Some(
                        (Some(x), Some(f), after_f + 1),
                    ));
                    assert(spec_parse_script_entries(s, after_x, Some(x), None) == Some(
                        (Some(x), Some(f), after_f + 1),
                    ));
                },
                None => {
                    assert(e == 9 + m);
                    assert(s[after_x] == '}');
                    lemma_trivia_at_token(s, after_x);
                    assert(spec_parse_script_entries(s, after_x, Some(x), None) == Some(
                        (Some(x), None::<Seq<char>>, after_x + 1),
                    ));
                },
            }
        },
        None => {
            let f = script.file->0;
            let q = f.len() as int;
            assert forall|k: int| p <= k < p + 4 implies s[k] == "file"@[k - p] by {
                assert(s[k] == entries[k - p]);
                assert(entries[k - p] == "file='"@[k - p]);
            }
            assert(s[p + 4] == '=') by {
                assert(s[p + 4] == entries[4]);
            }
            assert(s[p + 5] == '\'') by {
                assert(s[p + 5] == entries[5]);
            }
            assert forall|k: int| p + 6 <= k < p + 6 + q implies s[k] == f[k - p - 6] by {
                assert(s[k] == entries[k - p]);
            }
            assert(e == 7 + q);
            assert(s[p + 6 + q] == '\'') by {
                assert(s[p + 6 + q] == entries[6 + q]);
            }
            assert(s[p + 7 + q] == '}');
            assert(is_ident_start_char('f'));
            assert(forall|k: int| 0 <= k < 4 ==> is_ident_char(#[trigger] "file"@[k]));
            lemma_entry_scans(s, p, "file"@, f);
            assert(spec_ident_text(s, p) != "inline"@) by {
                assert("file"@.len() != "inline"@.len());
            }
            assert(s[p] == 'f');
            let after_f = p + 7 + q;
            lemma_trivia_at_token(s, after_f);
            assert(spec_parse_script_entries(s, after_f, None, Some(f)) == Some(
                (None::<Seq<char>>, Some(f), after_f + 1),
            ));
        },
    }
}

} // verus!
