//! Language descriptors and the pure core of the compiler invoker.
//!
//! A [`Language`] records one toolchain's identity and its command templates.
//! Rendering turns those templates into a concrete execution command or a
//! compile argument list; [`classify_attempt`] turns what the spawned compiler
//! did into a [`CompileResult`] or a named fault. All file and process work
//! stays with the caller: this module only decides.

use crate::template::{render, render_spec, template_ok, TemplateError};
use crate::views_of;
use vstd::prelude::*;

verus! {

/// One toolchain's identity and invocation templates, immutable once loaded.
#[derive(Debug)]
pub struct Language {
    /// Globally unique identifier; the registry's key.
    pub uuid: u128,
    /// Human-readable display name.
    pub name: String,
    /// Human-readable toolchain version.
    pub version: String,
    /// Template for running a compiled artifact; slot: `file`.
    pub exec_cmd: String,
    /// Path or name of the compiler binary.
    pub compile_exec: String,
    /// Template for the compiler's arguments; slots: `infile`, `outfile`.
    pub compile_args: String,
    /// Filename the source must be written to before compiling.
    pub entry_source: String,
    /// Memory-limit hint for the external sandbox; not enforced here.
    pub add_mem_limit: u64,
    /// Time-limit hint for the external sandbox; not enforced here.
    pub add_time_limit: u64,
}

impl Clone for Language {
    /// An exact copy: every field of the clone equals the original's.
    fn clone(&self) -> (r: Self)
        ensures
            r == *self,
    {
        Language {
            uuid: self.uuid,
            name: self.name.clone(),
            version: self.version.clone(),
            exec_cmd: self.exec_cmd.clone(),
            compile_exec: self.compile_exec.clone(),
            compile_args: self.compile_args.clone(),
            entry_source: self.entry_source.clone(),
            add_mem_limit: self.add_mem_limit,
            add_time_limit: self.add_time_limit,
        }
    }
}

/// The slot names an execution command template may use.
pub open spec fn exec_keys() -> Seq<Seq<char>> {
    seq!["file"@]
}

/// The slot names a compile argument template may use.
pub open spec fn compile_keys() -> Seq<Seq<char>> {
    seq!["infile"@, "outfile"@]
}

/// The slot names of an execution command, as owned strings.
fn exec_keys_vec() -> (r: Vec<String>)
    ensures
        views_of(r@) == exec_keys(),
{
    let mut v: Vec<String> = Vec::new();
    v.push("file".to_owned());
    proof {
        assert(views_of(v@) =~= exec_keys());
    }
    v
}

/// The slot names of a compile argument template, as owned strings.
fn compile_keys_vec() -> (r: Vec<String>)
    ensures
        views_of(r@) == compile_keys(),
{
    let mut v: Vec<String> = Vec::new();
    v.push("infile".to_owned());
    v.push("outfile".to_owned());
    proof {
        assert(views_of(v@) =~= compile_keys());
    }
    v
}

/// The binding of an execution command template: the artifact to run.
pub struct ExecCmd {
    /// Path of the artifact substituted for the `file` slot.
    pub file: String,
}

impl ExecCmd {
    /// Substitutes the artifact path into `template`'s `file` slot.
    pub fn render(&self, template: &str) -> (r: Result<String, TemplateError>)
        ensures
            ({
                let sp = render_spec(template@, exec_keys(), seq![self.file@]);
                match r {
                    Ok(s) => sp == Ok::<Seq<char>, TemplateError>(s@),
                    Err(e) => sp == Err::<Seq<char>, TemplateError>(e),
                }
            }),
    {
        let keys = exec_keys_vec();
        let mut vals: Vec<String> = Vec::new();
        vals.push(self.file.clone());
        proof {
            assert(views_of(vals@) =~= seq![self.file@]);
        }
        render(template, &keys, &vals)
    }
}

/// The bindings of a compile argument template: source in, artifact out.
pub struct CompileCmd {
    /// Path substituted for the `infile` slot.
    pub infile: String,
    /// Path substituted for the `outfile` slot.
    pub outfile: String,
}

impl CompileCmd {
    /// Substitutes both paths into `template`'s `infile` and `outfile` slots.
    pub fn render(&self, template: &str) -> (r: Result<String, TemplateError>)
        ensures
            ({
                let sp = render_spec(template@, compile_keys(), seq![self.infile@, self.outfile@]);
                match r {
                    Ok(s) => sp == Ok::<Seq<char>, TemplateError>(s@),
                    Err(e) => sp == Err::<Seq<char>, TemplateError>(e),
                }
            }),
    {
        let keys = compile_keys_vec();
        let mut vals: Vec<String> = Vec::new();
        vals.push(self.infile.clone());
        vals.push(self.outfile.clone());
        proof {
            assert(views_of(vals@) =~= seq![self.infile@, self.outfile@]);
        }
        render(template, &keys, &vals)
    }
}

/// The verdict of one compilation attempt, atomic from the caller's side.
#[derive(Clone, Debug)]
pub enum CompileResult {
    /// Zero exit status; carries the captured standard output.
    Success(String),
    /// Nonzero exit status; carries the captured standard error.
    Error(String),
}

/// A compilation attempt that produced no compiler verdict at all. Distinct
/// from [`CompileResult::Error`], which is the compiler's own report.
#[derive(Clone, Copy, Debug, PartialEq, Eq, Structural)]
pub enum CompileFault {
    /// The compiler binary could not be spawned.
    SpawnFailure,
    /// Captured compiler output was not valid text.
    OutputEncoding,
}

/// Classifies one compilation attempt. `spawned` says whether the compiler
/// process could be launched at all; `exit_ok` whether it reported success;
/// `stdout` and `stderr` carry its captured streams where they decoded as
/// text, `None` where they did not.
pub fn classify_attempt(
    spawned: bool,
    exit_ok: bool,
    stdout: Option<String>,
    stderr: Option<String>,
) -> (r: Result<CompileResult, CompileFault>)
    ensures
        !spawned ==> r == Err::<CompileResult, CompileFault>(CompileFault::SpawnFailure),
        spawned && exit_ok ==> r == (match stdout {
            Some(s) => Ok::<CompileResult, CompileFault>(CompileResult::Success(s)),
            None => Err::<CompileResult, CompileFault>(CompileFault::OutputEncoding),
        }),
        spawned && !exit_ok ==> r == (match stderr {
            Some(s) => Ok::<CompileResult, CompileFault>(CompileResult::Error(s)),
            None => Err::<CompileResult, CompileFault>(CompileFault::OutputEncoding),
        }),
{
    if !spawned {
        Err(CompileFault::SpawnFailure)
    } else if exit_ok {
        match stdout {
            Some(s) => Ok(CompileResult::Success(s)),
            None => Err(CompileFault::OutputEncoding),
        }
    } else {
        match stderr {
            Some(s) => Ok(CompileResult::Error(s)),
            None => Err(CompileFault::OutputEncoding),
        }
    }
}

impl Language {
    /// The execution command template uses only the `file` slot.
    pub open spec fn exec_template_ok(self) -> bool {
        template_ok(self.exec_cmd@, exec_keys())
    }

    /// Every whitespace-separated token of the compile argument template uses
    /// only the `infile` and `outfile` slots.
    pub open spec fn compile_template_ok(self) -> bool {
        crate::argv::tokens_ok(crate::argv::split_ws(self.compile_args@), compile_keys())
    }

    /// Both command templates are well formed; checked at registry load time.
    pub open spec fn wf_templates(self) -> bool {
        self.exec_template_ok() && self.compile_template_ok()
    }

    /// Whether both command templates are well formed.
    pub fn templates_valid(&self) -> (r: bool)
        ensures
            r == self.wf_templates(),
    {
        let ek = exec_keys_vec();
        let exec_ok = match render(self.exec_cmd.as_str(), &ek, &ek) {
            Ok(_) => true,
            Err(_) => false,
        };
        let ck = compile_keys_vec();
        let compile_ok = match crate::argv::render_argv(self.compile_args.as_str(), &ck, &ck) {
            Ok(_) => true,
            Err(_) => false,
        };
        exec_ok && compile_ok
    }

    /// Renders the command that runs the artifact at `binary_path`,
    /// substituting the path for the template's `file` slot.
    pub fn parse_exec_cmd(&self, binary_path: String) -> (r: Result<String, TemplateError>)
        ensures
            ({
                let sp = render_spec(self.exec_cmd@, exec_keys(), seq![binary_path@]);
                match r {
                    Ok(s) => sp == Ok::<Seq<char>, TemplateError>(s@),
                    Err(e) => sp == Err::<Seq<char>, TemplateError>(e),
                }
            }),
    {
        let cmd = ExecCmd { file: binary_path };
        cmd.render(self.exec_cmd.as_str())
    }

    /// Renders the compile arguments as one string, substituting the paths
    /// for the template's `infile` and `outfile` slots.
    pub fn parse_compile_args(&self, infile: String, outfile: String) -> (r: Result<
        String,
        TemplateError,
    >)
        ensures
            ({
                let sp = render_spec(self.compile_args@, compile_keys(), seq![infile@, outfile@]);
                match r {
                    Ok(s) => sp == Ok::<Seq<char>, TemplateError>(s@),
                    Err(e) => sp == Err::<Seq<char>, TemplateError>(e),
                }
            }),
    {
        let cmd = CompileCmd { infile, outfile };
        cmd.render(self.compile_args.as_str())
    }

    /// Renders the compile arguments directly into an argument list: the
    /// template is split on whitespace first, then each token is rendered, so
    /// whitespace inside a substituted path never splits an argument.
    pub fn compile_argv(&self, infile: String, outfile: String) -> (r: Result<
        Vec<String>,
        TemplateError,
    >)
        ensures
            ({
                let sp = crate::argv::render_tokens(
                    crate::argv::split_ws(self.compile_args@),
                    0,
                    compile_keys(),
                    seq![infile@, outfile@],
                );
                match r {
                    Ok(v) => sp == Ok::<Seq<Seq<char>>, TemplateError>(views_of(v@)),
                    Err(e) => sp == Err::<Seq<Seq<char>>, TemplateError>(e),
                }
            }),
    {
        let ck = compile_keys_vec();
        let mut vals: Vec<String> = Vec::new();
        vals.push(infile);
        vals.push(outfile);
        proof {
            assert(views_of(vals@) =~= seq![vals@[0]@, vals@[1]@]);
        }
        crate::argv::render_argv(self.compile_args.as_str(), &ck, &vals)
    }

    /// The path, inside the workspace directory, that the source bytes must
    /// be written to before compiling.
    pub fn entry_path(&self, workspace_dir: &str) -> (r: String)
        ensures
            r@ == workspace_dir@ + seq!['/'] + self.entry_source@,
    {
        proof {
            reveal_strlit("/");
        }
        workspace_dir.to_owned().concat("/").concat(self.entry_source.as_str())
    }

    /// Everything a caller must do to attempt a compilation in a fresh
    /// workspace: where to write the source, which binary to spawn, and with
    /// which argument list.
    pub fn compile_command(&self, workspace_dir: &str, outfile: &str) -> (r: Result<
        CompilePlan,
        TemplateError,
    >)
        ensures
            ({
                let src = workspace_dir@ + seq!['/'] + self.entry_source@;
                let sp = crate::argv::render_tokens(
                    crate::argv::split_ws(self.compile_args@),
                    0,
                    compile_keys(),
                    seq![src, outfile@],
                );
                match r {
                    Ok(p) => {
                        &&& p.source_path@ == src
                        &&& p.program@ == self.compile_exec@
                        &&& sp == Ok::<Seq<Seq<char>>, TemplateError>(views_of(p.args@))
                    },
                    Err(e) => sp == Err::<Seq<Seq<char>>, TemplateError>(e),
                }
            }),
    {
        let source_path = self.entry_path(workspace_dir);
        match self.compile_argv(source_path.clone(), outfile.to_owned()) {
            Ok(args) => Ok(
                CompilePlan { source_path, program: self.compile_exec.clone(), args },
            ),
            Err(e) => Err(e),
        }
    }
}

/// One compilation attempt, fully planned: all decisions made, only the file
/// writes and the process spawn left to the caller.
pub struct CompilePlan {
    /// Where the source bytes must be written inside the workspace.
    pub source_path: String,
    /// The compiler binary to spawn.
    pub program: String,
    /// The rendered argument list, one entry per process argument.
    pub args: Vec<String>,
}

} // verus!
