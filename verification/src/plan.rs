use vstd::prelude::*;

use crate::params::ParamMap;
use crate::scan::{
    skip_trivia, spec_skip_trivia, lemma_skip_trivia_bounds, scan_ident, spec_has_ident,
    spec_ident_text, spec_ident_end, lemma_ident_end_bounds, scan_string, spec_scan_string,
    lemma_scan_string_bounds,
};
use crate::strutil::{str_eq, to_chars};
use crate::task::{ParseError, SpecTask, Task, spec_parse_task};

verus! {

/// Abstract value of an `ExecutableTask`.
pub struct SpecExecutableTask {
    pub task: SpecTask,
    pub parameters: Map<Seq<char>, Seq<char>>,
}

/// A task bound to concrete parameter values, ready to run.
#[derive(Clone, Debug)]
pub struct ExecutableTask {
    pub task: Task,
    pub parameters: ParamMap,
}

impl View for ExecutableTask {
    type V = SpecExecutableTask;

    open spec fn view(&self) -> SpecExecutableTask {
        SpecExecutableTask { task: self.task@, parameters: self.parameters@ }
    }
}

impl ExecutableTask {
    /// Validity: the parameter mapping is well formed.
    pub open spec fn wf(&self) -> bool {
        self.parameters.wf()
    }

    /// Bind a task to parameter values.
    pub fn new(task: Task, parameters: ParamMap) -> (r: Self)
        ensures
            r.task == task,
            r.parameters == parameters,
    {
        Self { task, parameters }
    }

    /// The marker files the task itself lists; the list is empty, and
    /// a remote marker comes from the reserved `provides` parameter at
    /// execution time.
    pub fn provides() -> (r: Vec<String>)
        ensures
            r@.len() == 0,
    {
        Vec::new()
    }
}

/// Abstract value of a `PlanEntry`.
pub struct SpecPlanEntry {
    pub path: Seq<char>,
    pub parameters: Map<Seq<char>, Seq<char>>,
}

/// One `task '<path>' { ... }` block of a plan: the task file to load
/// and the parameters to bind to it.
#[derive(Clone, Debug)]
pub struct PlanEntry {
    pub path: String,
    pub parameters: ParamMap,
}

impl View for PlanEntry {
    type V = SpecPlanEntry;

    open spec fn view(&self) -> SpecPlanEntry {
        SpecPlanEntry { path: self.path@, parameters: self.parameters@ }
    }
}

/// An ordered sequence of parameterized task references; execution
/// proceeds top to bottom.
#[derive(Clone, Debug)]
pub struct Plan {
    pub tasks: Vec<PlanEntry>,
}

// ---------------------------------------------------------------------
// The plan grammar:
//
//   ( task <string> { ( <Identifier> = <string> [,] )* } )*
//
// Comments `/* ... */` and whitespace are ignored; commas between the
// key/value pairs are optional; later pairs overwrite earlier ones of
// the same key.
// ---------------------------------------------------------------------

/// The key/value pairs of one plan block, up to and including the
/// closing `}`, folded into `acc`.
pub open spec fn spec_parse_kwargs(s: Seq<char>, i: int, acc: Map<Seq<char>, Seq<char>>) -> Option<
    (Map<Seq<char>, Seq<char>>, int),
>
    decreases s.len() - i,
    via spec_parse_kwargs_decreases
{
    let j = spec_skip_trivia(s, i, false);
    if 0 <= j < s.len() && s[j] == '}' {
        Some((acc, j + 1))
    } else if spec_has_ident(s, j) {
        let key = spec_ident_text(s, j);
        let e = spec_ident_end(s, j);
        let j2 = spec_skip_trivia(s, e, false);
        if 0 <= j2 < s.len() && s[j2] == '=' {
            let j3 = spec_skip_trivia(s, j2 + 1, false);
            match spec_scan_string(s, j3) {
                Some(v) => {
                    let j4 = spec_skip_trivia(s, v.1, false);
                    if 0 <= j4 < s.len() && s[j4] == ',' {
                        spec_parse_kwargs(s, j4 + 1, acc.insert(key, v.0))
                    } else {
                        spec_parse_kwargs(s, v.1, acc.insert(key, v.0))
                    }
                },
                None => None,
            }
        } else {
            None
        }
    } else {
        None
    }
}

#[via_fn]
proof fn spec_parse_kwargs_decreases(s: Seq<char>, i: int, acc: Map<Seq<char>, Seq<char>>) {
    let j = spec_skip_trivia(s, i, false);
    if spec_has_ident(s, j) {
        if 0 <= i <= s.len() {
            lemma_skip_trivia_bounds(s, i, false);
        }
        lemma_ident_end_bounds(s, j);
        let e = spec_ident_end(s, j);
        lemma_skip_trivia_bounds(s, e, false);
        let j2 = spec_skip_trivia(s, e, false);
        if 0 <= j2 < s.len() && s[j2] == '=' {
            lemma_skip_trivia_bounds(s, j2 + 1, false);
            let j3 = spec_skip_trivia(s, j2 + 1, false);
            lemma_scan_string_bounds(s, j3);
            match spec_scan_string(s, j3) {
                Some(v) => {
                    lemma_skip_trivia_bounds(s, v.1, false);
                },
                None => {},
            }
        }
    }
}

pub proof fn lemma_parse_kwargs_bounds(s: Seq<char>, i: int, acc: Map<Seq<char>, Seq<char>>)
    requires
        0 <= i <= s.len(),
    ensures
        match spec_parse_kwargs(s, i, acc) {
            Some(r) => i < r.1 <= s.len(),
            None => true,
        },
    decreases s.len() - i,
{
    lemma_skip_trivia_bounds(s, i, false);
    let j = spec_skip_trivia(s, i, false);
    if 0 <= j < s.len() && s[j] == '}' {
    } else if spec_has_ident(s, j) {
        let key = spec_ident_text(s, j);
        lemma_ident_end_bounds(s, j);
        let e = spec_ident_end(s, j);
        lemma_skip_trivia_bounds(s, e, false);
        let j2 = spec_skip_trivia(s, e, false);
        if 0 <= j2 < s.len() && s[j2] == '=' {
            lemma_skip_trivia_bounds(s, j2 + 1, false);
            let j3 = spec_skip_trivia(s, j2 + 1, false);
            lemma_scan_string_bounds(s, j3);
            match spec_scan_string(s, j3) {
                Some(v) => {
                    lemma_skip_trivia_bounds(s, v.1, false);
                    let j4 = spec_skip_trivia(s, v.1, false);
                    if 0 <= j4 < s.len() && s[j4] == ',' {
                        lemma_parse_kwargs_bounds(s, j4 + 1, acc.insert(key, v.0));
                    } else {
                        lemma_parse_kwargs_bounds(s, v.1, acc.insert(key, v.0));
                    }
                },
                None => {},
            }
        }
    }
}

/// The blocks of a plan source, appended to `acc` in source order; only
/// trivia may follow the last block.
pub open spec fn spec_parse_blocks(s: Seq<char>, i: int, acc: Seq<SpecPlanEntry>) -> Option<
    Seq<SpecPlanEntry>,
>
    decreases s.len() - i,
    via spec_parse_blocks_decreases
{
    let j = spec_skip_trivia(s, i, false);
    if j >= s.len() {
        Some(acc)
    } else if spec_has_ident(s, j) && spec_ident_text(s, j) == "task"@ {
        let e = spec_ident_end(s, j);
        let j2 = spec_skip_trivia(s, e, false);
        match spec_scan_string(s, j2) {
            Some(p) => {
                let j3 = spec_skip_trivia(s, p.1, false);
                if 0 <= j3 < s.len() && s[j3] == '{' {
                    match spec_parse_kwargs(s, j3 + 1, Map::empty()) {
                        Some(r) => spec_parse_blocks(
                            s,
                            r.1,
                            acc.push(SpecPlanEntry { path: p.0, parameters: r.0 }),
                        ),
                        None => None,
                    }
                } else {
                    None
                }
            },
            None => None,
        }
    } else {
        None
    }
}

#[via_fn]
proof fn spec_parse_blocks_decreases(s: Seq<char>, i: int, acc: Seq<SpecPlanEntry>) {
    let j = spec_skip_trivia(s, i, false);
    if spec_has_ident(s, j) {
        if 0 <= i <= s.len() {
            lemma_skip_trivia_bounds(s, i, false);
        }
        lemma_ident_end_bounds(s, j);
        let e = spec_ident_end(s, j);
        lemma_skip_trivia_bounds(s, e, false);
        let j2 = spec_skip_trivia(s, e, false);
        lemma_scan_string_bounds(s, j2);
        match spec_scan_string(s, j2) {
            Some(p) => {
                lemma_skip_trivia_bounds(s, p.1, false);
                let j3 = spec_skip_trivia(s, p.1, false);
                if 0 <= j3 < s.len() && s[j3] == '{' {
                    lemma_parse_kwargs_bounds(s, j3 + 1, Map::empty());
                }
            },
            None => {},
        }
    }
}

/// The whole plan source: its entries in source order, or nothing if
/// the text does not match the plan grammar.
pub open spec fn spec_parse_plan(s: Seq<char>) -> Option<Seq<SpecPlanEntry>> {
    spec_parse_blocks(s, 0, Seq::empty())
}

fn parse_kwargs(s: &Vec<char>, pos: usize, acc: ParamMap) -> (r: Result<
    (ParamMap, usize),
    ParseError,
>)
    requires
        pos <= s@.len(),
        acc.wf(),
    ensures
        match r {
            Ok((m, k)) => spec_parse_kwargs(s@, pos as int, acc@) == Some((m@, k as int)) && m.wf()
                && pos < k <= s@.len(),
            Err(_) => spec_parse_kwargs(s@, pos as int, acc@) is None,
        },
    decreases s@.len() - pos,
{
    proof {
        lemma_parse_kwargs_bounds(s@, pos as int, acc@);
    }
    let j = skip_trivia(s, pos);
    if j < s.len() && s[j] == '}' {
        return Ok((acc, j + 1));
    }
    match scan_ident(s, j) {
        Some((key, e)) => {
            let j2 = skip_trivia(s, e);
            if j2 < s.len() && s[j2] == '=' {
                let j3 = skip_trivia(s, j2 + 1);
                match scan_string(s, j3) {
                    Some((value, k)) => {
                        let j4 = skip_trivia(s, k);
                        let mut acc = acc;
                        acc.insert(key, value);
                        if j4 < s.len() && s[j4] == ',' {
                            parse_kwargs(s, j4 + 1, acc)
                        } else {
                            parse_kwargs(s, k, acc)
                        }
                    },
                    None => Err(ParseError::new(j3, "expected a string value")),
                }
            } else {
                Err(ParseError::new(j2, "expected `=` after a parameter name"))
            }
        },
        None => Err(ParseError::new(j, "expected `}` or a parameter name")),
    }
}

fn parse_blocks(s: &Vec<char>, pos: usize, acc: Vec<PlanEntry>) -> (r: Result<
    Vec<PlanEntry>,
    ParseError,
>)
    requires
        pos <= s@.len(),
        forall|i: int| 0 <= i < acc@.len() ==> (#[trigger] acc@[i]).parameters.wf(),
    ensures
        match r {
            Ok(v) => spec_parse_blocks(s@, pos as int, acc@.map_values(|e: PlanEntry| e@))
                == Some(v@.map_values(|e: PlanEntry| e@)) && forall|i: int|
                0 <= i < v@.len() ==> (#[trigger] v@[i]).parameters.wf(),
            Err(_) => spec_parse_blocks(s@, pos as int, acc@.map_values(|e: PlanEntry| e@))
                is None,
        },
    decreases s@.len() - pos,
{
    let j = skip_trivia(s, pos);
    if j >= s.len() {
        return Ok(acc);
    }
    match scan_ident(s, j) {
        Some((kw, e)) => {
            if !str_eq(kw.as_str(), "task") {
                return Err(ParseError::new(j, "expected `task`"));
            }
            let j2 = skip_trivia(s, e);
            match scan_string(s, j2) {
                Some((path, k1)) => {
                    let j3 = skip_trivia(s, k1);
                    if j3 < s.len() && s[j3] == '{' {
                        match parse_kwargs(s, j3 + 1, ParamMap::new()) {
                            Ok((params, k2)) => {
                                let mut acc = acc;
                                let ghost acc0 = acc@;
                                acc.push(PlanEntry { path, parameters: params });
                                proof {
                                    assert(acc@.map_values(|e: PlanEntry| e@) =~= acc0.map_values(
                                        |e: PlanEntry| e@,
                                    ).push(
                                        SpecPlanEntry { path: path@, parameters: params@ },
                                    ));
                                }
                                parse_blocks(s, k2, acc)
                            },
                            Err(err) => Err(err),
                        }
                    } else {
                        Err(ParseError::new(j3, "expected `{` after the task path"))
                    }
                },
                None => Err(ParseError::new(j2, "expected a quoted task path")),
            }
        },
        None => Err(ParseError::new(j, "expected `task` or the end of the plan")),
    }
}

/// The executable tasks a plan yields, given the source text of each
/// referenced task file: entries whose file could not be read or whose
/// text does not parse are skipped, and source order is kept.
pub open spec fn spec_resolve(
    entries: Seq<SpecPlanEntry>,
    sources: Seq<Option<Seq<char>>>,
) -> Seq<SpecExecutableTask>
    decreases entries.len(),
{
    if entries.len() == 0 {
        Seq::empty()
    } else {
        let rest = spec_resolve(entries.drop_last(), sources.drop_last());
        match sources.last() {
            Some(text) => match spec_parse_task(text) {
                Some(t) => rest.push(
                    SpecExecutableTask { task: t, parameters: entries.last().parameters },
                ),
                None => rest,
            },
            None => rest,
        }
    }
}

impl Plan {
    /// Validity: every entry's parameter mapping is well formed.
    pub open spec fn wf(&self) -> bool {
        forall|i: int| 0 <= i < self.tasks@.len() ==> (#[trigger] self.tasks@[i]).parameters.wf()
    }

    /// An empty plan.
    pub fn new() -> (r: Self)
        ensures
            r.tasks@.len() == 0,
            r.wf(),
    {
        Self { tasks: Vec::new() }
    }

    /// Parse a plan from source text.  Succeeds exactly when the text
    /// matches the plan grammar; the entries come back in source order.
    pub fn from_str(buf: &str) -> (r: Result<Self, ParseError>)
        ensures
            match r {
                Ok(p) => spec_parse_plan(buf@) == Some(p.tasks@.map_values(|e: PlanEntry| e@))
                    && p.wf(),
                Err(_) => spec_parse_plan(buf@) is None,
            },
    {
        let chars = to_chars(buf);
        let acc: Vec<PlanEntry> = Vec::new();
        proof {
            assert(acc@.map_values(|e: PlanEntry| e@) =~= Seq::<SpecPlanEntry>::empty());
        }
        match parse_blocks(&chars, 0, acc) {
            Ok(v) => Ok(Self { tasks: v }),
            Err(err) => Err(err),
        }
    }

    /// Resolve the plan against the contents of each referenced task
    /// file (`sources[i]` is the text of the file `tasks[i].path` names,
    /// or nothing if it could not be read).  Unparseable entries are
    /// skipped; the rest keep their order.
    pub fn resolve(&self, sources: &Vec<Option<String>>) -> (r: Vec<ExecutableTask>)
        requires
            self.wf(),
            sources@.len() == self.tasks@.len(),
        ensures
            r@.map_values(|e: ExecutableTask| e@) == spec_resolve(
                self.tasks@.map_values(|e: PlanEntry| e@),
                sources@.map_values(|o: Option<String>| crate::task::opt_view(o)),
            ),
            forall|i: int| 0 <= i < r@.len() ==> (#[trigger] r@[i]).wf(),
    {
        let n = self.tasks.len();
        let mut out: Vec<ExecutableTask> = Vec::new();
        let mut i: usize = 0;
        while i < n
            invariant
                n == self.tasks@.len(),
                sources@.len() == n,
                self.wf(),
                i <= n,
                out@.map_values(|e: ExecutableTask| e@) =~= spec_resolve(
                    self.tasks@.subrange(0, i as int).map_values(|e: PlanEntry| e@),
                    sources@.subrange(0, i as int).map_values(
                        |o: Option<String>| crate::task::opt_view(o),
                    ),
                ),
                forall|k: int| 0 <= k < out@.len() ==> (#[trigger] out@[k]).wf(),
            decreases n - i,
        {
            let ghost out0 = out@;
            match &sources[i] {
                Some(text) => {
                    match Task::from_str(text.as_str()) {
                        Ok(task) => {
                            out.push(
                                ExecutableTask {
                                    task,
                                    parameters: self.tasks[i].parameters.duplicate(),
                                },
                            );
                        },
                        Err(_) => {},
                    }
                },
                None => {},
            }
            proof {
                let entr = self.tasks@.subrange(0, i as int + 1).map_values(|e: PlanEntry| e@);
                let srcs = sources@.subrange(0, i as int + 1).map_values(
                    |o: Option<String>| crate::task::opt_view(o),
                );
                assert(entr.drop_last() =~= self.tasks@.subrange(0, i as int).map_values(
                    |e: PlanEntry| e@,
                ));
                assert(srcs.drop_last() =~= sources@.subrange(0, i as int).map_values(
                    |o: Option<String>| crate::task::opt_view(o),
                ));
                assert(entr.last() == self.tasks@[i as int]@);
                assert(srcs.last() == crate::task::opt_view(sources@[i as int]));
                assert(out@.map_values(|e: ExecutableTask| e@) =~= spec_resolve(entr, srcs));
            }
            i = i + 1;
        }
        proof {
            assert(self.tasks@.subrange(0, n as int) =~= self.tasks@);
            assert(sources@.subrange(0, n as int) =~= sources@);
        }
        out
    }
}

} // verus!
