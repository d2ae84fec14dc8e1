//! Command pipelines: building a program invocation, piping several
//! together, and the unprepared/prepared typestate.
//!
//! A runner is a chain of stages; each stage holds a program, its
//! arguments in order, and its environment entries with unique keys.
//! Building is pure; only a prepared runner may be spawned, and spawning
//! lives outside this crate's verified core.
use vstd::prelude::*;

use crate::headers::{
    header_views, lemma_insert_unique, lemma_name_index_ensures, lemma_step, spec_has_name,
    spec_insert, spec_name_index, spec_unique_names, HeaderSeq,
};
use crate::chars::str_eq;

verus! {

/// One stage of a pipeline as plain values: program, arguments,
/// environment entries.
#[verifier::ext_equal]
pub struct StageView {
    pub program: Seq<char>,
    pub args: Seq<Seq<char>>,
    pub env: HeaderSeq,
}

/// The marker of a runner that may still be edited and must be validated
/// before it can run.
#[derive(Debug, Clone, Copy, PartialEq, Eq)]
pub struct Unprepared;

/// The marker of a runner that passed validation and may be spawned.
#[derive(Debug, Clone, Copy, PartialEq, Eq)]
pub struct Prepared;

/// A command pipeline in the state `T`: this stage and, after `pipe`,
/// the next runner its output feeds.
#[derive(Debug)]
pub struct Runner<T> {
    program: String,
    args: Vec<String>,
    env_vars: Vec<(String, String)>,
    next_runner: Box<Option<Runner<T>>>,
    state: T,
}

/// The views of a vector of owned argument strings.
pub open spec fn arg_views(s: Seq<String>) -> Seq<Seq<char>> {
    s.map_values(|a: String| a@)
}

impl<T> Runner<T> {
    /// The stages of the pipeline, front to back.
    pub closed spec fn spec_chain(&self) -> Seq<StageView>
        decreases self,
    {
        let head = StageView {
            program: self.program@,
            args: arg_views(self.args@),
            env: header_views(self.env_vars@),
        };
        match *self.next_runner {
            Some(next) => seq![head] + next.spec_chain(),
            None => seq![head],
        }
    }

    /// Every stage keeps its environment keys unique.
    pub open spec fn wf(&self) -> bool {
        forall|i: int|
            0 <= i < self.spec_chain().len() ==> spec_unique_names(
                #[trigger] self.spec_chain()[i].env,
            )
    }

    /// The program of the first stage.
    pub fn get_program(&self) -> (r: &str)
        ensures
            r@ == self.spec_chain()[0].program,
    {
        &self.program
    }

    /// The arguments of the first stage, in order.
    pub fn arg_strings(&self) -> (r: &Vec<String>)
        ensures
            arg_views(r@) == self.spec_chain()[0].args,
    {
        &self.args
    }

    /// The environment entries of the first stage.
    pub fn env_pairs(&self) -> (r: &Vec<(String, String)>)
        ensures
            header_views(r@) == self.spec_chain()[0].env,
    {
        &self.env_vars
    }

    /// The rest of the pipeline, if this stage feeds another.
    pub fn next(&self) -> (r: Option<&Runner<T>>)
        ensures
            r matches Some(n) ==> self.spec_next() == Some(*n),
            r is None ==> self.spec_next() is None,
    {
        match &*self.next_runner {
            Some(n) => Some(n),
            None => None,
        }
    }

    /// Appends one argument to the first stage.
    pub fn arg(self, arg: &str) -> (r: Runner<T>)
        requires
            self.wf(),
        ensures
            r.wf(),
            r.spec_chain() == self.spec_chain().update(
                0,
                StageView {
                    args: self.spec_chain()[0].args.push(arg@),
                    ..self.spec_chain()[0]
                },
            ),
    {
        let Runner { program, mut args, env_vars, next_runner, state } = self;
        args.push(arg.to_owned());
        let r = Runner { program, args, env_vars, next_runner, state };
        proof {
            assert(arg_views(r.args@) =~= arg_views(self.args@).push(arg@));
            lemma_chain_decompose(&r);
            lemma_chain_decompose(&self);
            lemma_same_tail(&r, &self);
            assert(r.spec_chain() =~= self.spec_chain().update(
                0,
                StageView {
                    args: self.spec_chain()[0].args.push(arg@),
                    ..self.spec_chain()[0]
                },
            ));
            assert forall|i: int|
                0 <= i < r.spec_chain().len() implies spec_unique_names(
                #[trigger] r.spec_chain()[i].env,
            ) by {
                assert(r.spec_chain()[i].env == self.spec_chain()[i].env);
            }
        }
        r
    }

    /// Appends each argument in order to the first stage.
    pub fn args(self, args: &Vec<String>) -> (r: Runner<T>)
        requires
            self.wf(),
        ensures
            r.wf(),
            r.spec_chain() == self.spec_chain().update(
                0,
                StageView {
                    args: self.spec_chain()[0].args + arg_views(args@),
                    ..self.spec_chain()[0]
                },
            ),
    {
        let mut xs = self;
        let n = args.len();
        let mut i: usize = 0;
        proof {
            assert(xs.spec_chain() =~= self.spec_chain().update(
                0,
                StageView {
                    args: self.spec_chain()[0].args + arg_views(args@).take(0),
                    ..self.spec_chain()[0]
                },
            ));
        }
        while i < n
            invariant
                i <= n,
                n == args@.len(),
                xs.wf(),
                xs.spec_chain() == self.spec_chain().update(
                    0,
                    StageView {
                        args: self.spec_chain()[0].args + arg_views(args@).take(i as int),
                        ..self.spec_chain()[0]
                    },
                ),
            decreases n - i,
        {
            xs = xs.arg(args[i].as_str());
            proof {
                assert(arg_views(args@).take(i + 1) =~= arg_views(args@).take(i as int).push(
                    args@[i as int]@,
                ));
                assert(xs.spec_chain() =~= self.spec_chain().update(
                    0,
                    StageView {
                        args: self.spec_chain()[0].args + arg_views(args@).take(i + 1),
                        ..self.spec_chain()[0]
                    },
                ));
            }
            i = i + 1;
        }
        proof {
            assert(arg_views(args@).take(n as int) =~= arg_views(args@));
        }
        xs
    }

    /// Appends the argument when one is present.
    pub fn push_arg(self, entry: Option<&str>) -> (r: Runner<T>)
        requires
            self.wf(),
        ensures
            r.wf(),
            entry matches Some(a) ==> r.spec_chain() == self.spec_chain().update(
                0,
                StageView {
                    args: self.spec_chain()[0].args.push(a@),
                    ..self.spec_chain()[0]
                },
            ),
            entry is None ==> r.spec_chain() == self.spec_chain(),
    {
        match entry {
            None => self,
            Some(x) => self.arg(x),
        }
    }

    /// Sets an environment entry on the first stage, replacing the value
    /// under an existing key in place.
    pub fn env(self, key: &str, val: &str) -> (r: Runner<T>)
        requires
            self.wf(),
        ensures
            r.wf(),
            r.spec_chain() == self.spec_chain().update(
                0,
                StageView {
                    env: spec_insert(self.spec_chain()[0].env, key@, val@),
                    ..self.spec_chain()[0]
                },
            ),
    {
        proof {
            lemma_chain_decompose(&self);
        }
        let Runner { program, args, env_vars, next_runner, state } = self;
        let env_vars = insert_env(env_vars, key, val);
        let r = Runner { program, args, env_vars, next_runner, state };
        proof {
            lemma_chain_decompose(&r);
            lemma_same_tail(&r, &self);
            lemma_insert_unique(header_views(self.env_vars@), key@, val@);
            assert(r.spec_chain() =~= self.spec_chain().update(
                0,
                StageView {
                    env: spec_insert(self.spec_chain()[0].env, key@, val@),
                    ..self.spec_chain()[0]
                },
            ));
            assert forall|i: int|
                0 <= i < r.spec_chain().len() implies spec_unique_names(
                #[trigger] r.spec_chain()[i].env,
            ) by {
                if i > 0 {
                    assert(r.spec_chain()[i].env == self.spec_chain()[i].env);
                }
            }
        }
        r
    }

    /// Sets the entry when one is present.
    pub fn env_entry(self, entry: Option<EnvEntry>) -> (r: Runner<T>)
        requires
            self.wf(),
        ensures
            r.wf(),
            entry matches Some(e) ==> r.spec_chain() == self.spec_chain().update(
                0,
                StageView {
                    env: spec_insert(self.spec_chain()[0].env, e.key@, e.value@),
                    ..self.spec_chain()[0]
                },
            ),
            entry is None ==> r.spec_chain() == self.spec_chain(),
    {
        match entry {
            Some(e) => self.env(e.key.as_str(), e.value.as_str()),
            None => self,
        }
    }

    /// Chains `next` onto the end of this pipeline.
    pub fn pipe(self, next: Runner<T>) -> (r: Runner<T>)
        requires
            self.wf(),
            next.wf(),
        ensures
            r.wf(),
            r.spec_chain() == self.spec_chain() + next.spec_chain(),
    {
        self.append_runner(next)
    }

    /// Walks to the end of the chain and attaches `runner` there.
    fn append_runner(self, runner: Runner<T>) -> (r: Runner<T>)
        requires
            self.wf(),
            runner.wf(),
        ensures
            r.wf(),
            r.spec_chain() == self.spec_chain() + runner.spec_chain(),
        decreases self,
    {
        proof {
            lemma_chain_decompose(&self);
        }
        let ghost rv = runner.spec_chain();
        let Runner { program, args, env_vars, next_runner, state } = self;
        let next = match *next_runner {
            None => Some(runner),
            Some(n) => {
                proof {
                    assert forall|i: int|
                        0 <= i < n.spec_chain().len() implies spec_unique_names(
                        #[trigger] n.spec_chain()[i].env,
                    ) by {
                        assert(n.spec_chain()[i] == self.spec_chain().skip(1)[i]);
                        assert(self.spec_chain()[i + 1] == self.spec_chain().skip(1)[i]);
                        assert(spec_unique_names(self.spec_chain()[i + 1].env));
                    }
                }
                Some(n.append_runner(runner))
            },
        };
        let r = Runner { program, args, env_vars, next_runner: Box::new(next), state };
        proof {
            lemma_chain_decompose(&r);
            assert(r.spec_chain() =~= self.spec_chain() + rv) by {
                assert forall|i: int|
                    1 <= i < r.spec_chain().len() implies #[trigger] r.spec_chain()[i] == (
                self.spec_chain() + rv)[i] by {
                    assert(r.spec_chain()[i] == r.spec_chain().skip(1)[i - 1]);
                    if i < self.spec_chain().len() {
                        assert(self.spec_chain()[i] == self.spec_chain().skip(1)[i - 1]);
                    }
                }
            }
            assert forall|i: int|
                0 <= i < r.spec_chain().len() implies spec_unique_names(
                #[trigger] r.spec_chain()[i].env,
            ) by {
                assert(r.spec_chain()[i] == (self.spec_chain() + rv)[i]);
                if i >= self.spec_chain().len() {
                    assert((self.spec_chain() + rv)[i] == rv[i - self.spec_chain().len()]);
                }
            }
        }
        r
    }

    /// The one-line command and the environment of the first stage, for
    /// diagnostics.
    pub fn create_summary(&self) -> (r: RunnerSummary)
        ensures
            r.spec_command() == self.spec_chain()[0].program + seq![' '] + spec_join_space(
                self.spec_chain()[0].args,
            ),
            r.spec_env() == self.spec_chain()[0].env,
    {
        let mut command = String::new();
        crate::strings::push_str(&mut command, self.program.as_str());
        crate::strings::push_char(&mut command, ' ');
        let n = self.args.len();
        let mut i: usize = 0;
        while i < n
            invariant
                i <= n,
                n == self.args@.len(),
                command@ == self.program@ + seq![' '] + spec_join_space(
                    arg_views(self.args@).take(i as int),
                ),
            decreases n - i,
        {
            if i > 0 {
                crate::strings::push_char(&mut command, ' ');
            }
            crate::strings::push_str(&mut command, self.args[i].as_str());
            proof {
                let av = arg_views(self.args@);
                let t1 = av.take(i + 1);
                assert(t1.drop_last() =~= av.take(i as int));
                assert(t1.last() == self.args@[i as int]@);
                if i == 0 {
                    assert(command@ =~= self.program@ + seq![' '] + t1[0]);
                } else {
                    assert(command@ =~= self.program@ + seq![' '] + (spec_join_space(
                        t1.drop_last(),
                    ) + seq![' '] + t1.last()));
                }
            }
            i = i + 1;
        }
        let mut env: Vec<(String, String)> = Vec::new();
        let m = self.env_vars.len();
        let mut j: usize = 0;
        while j < m
            invariant
                j <= m,
                m == self.env_vars@.len(),
                header_views(env@) == header_views(self.env_vars@).take(j as int),
            decreases m - j,
        {
            let k = self.env_vars[j].0.clone();
            let v = self.env_vars[j].1.clone();
            let ghost kv = k@;
            let ghost vv = v@;
            let ghost prev = env@;
            env.push((k, v));
            proof {
                assert(header_views(env@) =~= header_views(prev).push((kv, vv)));
                assert(header_views(env@) =~= header_views(self.env_vars@).take(j + 1));
            }
            j = j + 1;
        }
        proof {
            assert(arg_views(self.args@).take(n as int) =~= arg_views(self.args@));
            assert(header_views(self.env_vars@).take(m as int) =~= header_views(self.env_vars@));
        }
        RunnerSummary { command, env }
    }
}

/// The words joined by single blanks; empty when there are none.
pub open spec fn spec_join_space(parts: Seq<Seq<char>>) -> Seq<char>
    decreases parts.len(),
{
    if parts.len() == 0 {
        Seq::empty()
    } else if parts.len() == 1 {
        parts[0]
    } else {
        spec_join_space(parts.drop_last()) + seq![' '] + parts.last()
    }
}

/// An environment entry handed over from configuration.
#[derive(Debug, Clone, PartialEq, Eq)]
pub struct EnvEntry {
    pub key: String,
    pub value: String,
}

/// Starts an editable pipeline of one stage: the program, no arguments,
/// no environment.
pub fn program(name: String) -> (r: Runner<Unprepared>)
    ensures
        r.wf(),
        r.spec_chain() == seq![
            StageView { program: name@, args: Seq::empty(), env: Seq::empty() },
        ],
{
    let r = Runner {
        program: name,
        args: Vec::new(),
        env_vars: Vec::new(),
        next_runner: Box::new(None),
        state: Unprepared,
    };
    proof {
        assert(arg_views(r.args@) =~= Seq::<Seq<char>>::empty());
        assert(header_views(r.env_vars@) =~= Seq::<(Seq<char>, Seq<char>)>::empty());
        assert(r.spec_chain() =~= seq![
            StageView { program: r.program@, args: Seq::empty(), env: Seq::empty() },
        ]);
    }
    r
}

impl Runner<Unprepared> {
    /// Validates the pipeline with the supplied check; only a pipeline
    /// the check accepts becomes prepared, with the same stages.
    pub fn prepare<E, F: Fn(&Runner<Unprepared>) -> Result<(), E>>(self, f: F) -> (r: Result<
        Runner<Prepared>,
        E,
    >)
        requires
            self.wf(),
            call_requires(f, (&self,)),
        ensures
            r matches Ok(p) ==> p.wf() && p.spec_chain() == self.spec_chain(),
            r matches Err(e) ==> call_ensures(f, (&self,), Err(e)),
    {
        match f(&self) {
            Ok(_) => Ok(self.into_prepared()),
            Err(e) => Err(e),
        }
    }

    /// Reconstructs the chain in the prepared state, stage for stage.
    fn into_prepared(self) -> (r: Runner<Prepared>)
        requires
            self.wf(),
        ensures
            r.wf(),
            r.spec_chain() == self.spec_chain(),
        decreases self,
    {
        proof {
            lemma_chain_decompose(&self);
        }
        let Runner { program, args, env_vars, next_runner, state: _ } = self;
        let next = match *next_runner {
            Some(n) => {
                proof {
                    assert forall|i: int|
                        0 <= i < n.spec_chain().len() implies spec_unique_names(
                        #[trigger] n.spec_chain()[i].env,
                    ) by {
                        assert(n.spec_chain()[i] == self.spec_chain().skip(1)[i]);
                        assert(self.spec_chain()[i + 1] == self.spec_chain().skip(1)[i]);
                        assert(spec_unique_names(self.spec_chain()[i + 1].env));
                    }
                }
                Some(n.into_prepared())
            },
            None => None,
        };
        let r = Runner { program, args, env_vars, next_runner: Box::new(next), state: Prepared };
        proof {
            lemma_chain_decompose(&r);
            assert(r.spec_chain() =~= self.spec_chain()) by {
                assert forall|i: int|
                    1 <= i < r.spec_chain().len() implies #[trigger] r.spec_chain()[i]
                    == self.spec_chain()[i] by {
                    assert(r.spec_chain()[i] == r.spec_chain().skip(1)[i - 1]);
                    assert(self.spec_chain()[i] == self.spec_chain().skip(1)[i - 1]);
                }
            }
        }
        r
    }
}

/// A validation that accepts every pipeline.
pub fn no_op<E>(runner: &Runner<Unprepared>) -> (r: Result<(), E>)
    ensures
        r is Ok,
{
    Ok(())
}

/// What would run: the rendered command line of the first stage and its
/// environment entries.
#[derive(Debug)]
pub struct RunnerSummary {
    command: String,
    env: Vec<(String, String)>,
}

impl RunnerSummary {
    pub closed spec fn spec_command(&self) -> Seq<char> {
        self.command@
    }

    pub closed spec fn spec_env(&self) -> HeaderSeq {
        header_views(self.env@)
    }

    pub fn command(&self) -> (r: &str)
        ensures
            r@ == self.spec_command(),
    {
        self.command.as_str()
    }

    pub fn env_entries(&self) -> (r: &Vec<(String, String)>)
        ensures
            header_views(r@) == self.spec_env(),
    {
        &self.env
    }
}

/// A pipeline's stages are its first stage followed by the stages of the
/// rest.
proof fn lemma_chain_decompose<T>(r: &Runner<T>)
    ensures
        r.spec_chain().len() >= 1,
        r.spec_chain()[0].program == r.program@,
        r.spec_chain()[0].args == arg_views(r.args@),
        r.spec_chain()[0].env == header_views(r.env_vars@),
        match *r.next_runner {
            Some(n) => r.spec_chain().skip(1) == n.spec_chain(),
            None => r.spec_chain().len() == 1,
        },
{
    match *r.next_runner {
        Some(n) => {
            assert(r.spec_chain().skip(1) =~= n.spec_chain());
        },
        None => {},
    }
}

/// Two pipelines with the same rest agree on every stage after the first.
proof fn lemma_same_tail<T>(a: &Runner<T>, b: &Runner<T>)
    requires
        *a.next_runner == *b.next_runner,
    ensures
        a.spec_chain().len() == b.spec_chain().len(),
        forall|i: int|
            1 <= i < a.spec_chain().len() ==> #[trigger] a.spec_chain()[i] == b.spec_chain()[i],
{
    lemma_chain_decompose(a);
    lemma_chain_decompose(b);
    match *a.next_runner {
        Some(n) => {
            assert forall|i: int|
                1 <= i < a.spec_chain().len() implies #[trigger] a.spec_chain()[i]
                == b.spec_chain()[i] by {
                assert(a.spec_chain()[i] == a.spec_chain().skip(1)[i - 1]);
                assert(b.spec_chain()[i] == b.spec_chain().skip(1)[i - 1]);
            }
        },
        None => {},
    }
}

impl<T> Runner<T> {
    /// The rest of the pipeline after the first stage.
    pub closed spec fn spec_next(&self) -> Option<Runner<T>> {
        *self.next_runner
    }
}

/// Replaces the value under `key` in place, or appends the new entry.
fn insert_env(input: Vec<(String, String)>, key: &str, val: &str) -> (r: Vec<(String, String)>)
    requires
        spec_unique_names(header_views(input@)),
    ensures
        header_views(r@) == spec_insert(header_views(input@), key@, val@),
{
    let ghost iv = header_views(input@);
    let mut out: Vec<(String, String)> = Vec::new();
    let mut replaced = false;
    let mut i: usize = 0;
    let n = input.len();
    while i < n
        invariant
            i <= n,
            n == input@.len(),
            iv == header_views(input@),
            spec_unique_names(iv),
            !replaced ==> header_views(out@) =~= iv.take(i as int),
            !replaced ==> !spec_has_name(iv.take(i as int), key@),
            replaced ==> spec_has_name(iv.take(i as int), key@) && header_views(out@)
                =~= iv.take(i as int).update(spec_name_index(iv.take(i as int), key@), (key@, val@)),
        decreases n - i,
    {
        let (en, ev) = (&input[i].0, &input[i].1);
        let ghost prev = out@;
        proof {
            assert(iv[i as int] == (input@[i as int].0@, input@[i as int].1@));
        }
        if str_eq(en.as_str(), key) {
            out.push((key.to_owned(), val.to_owned()));
            proof {
                if replaced {
                    lemma_name_index_ensures(iv.take(i as int), key@);
                    let k = spec_name_index(iv.take(i as int), key@);
                    assert(iv.take(i as int)[k] == iv[k]);
                    assert(iv[k].0 == key@);
                    assert(iv[i as int].0 == key@);
                    assert(false);
                }
            }
            replaced = true;
        } else {
            out.push((en.clone(), ev.clone()));
        }
        proof {
            lemma_step(iv, header_views(prev), header_views(out@), i as int, key@, val@, replaced);
        }
        i = i + 1;
    }
    proof {
        assert(iv.take(n as int) =~= iv);
    }
    if !replaced {
        out.push((key.to_owned(), val.to_owned()));
        proof {
            assert(header_views(out@) =~= iv.push((key@, val@)));
        }
    }
    out
}

} // verus!
