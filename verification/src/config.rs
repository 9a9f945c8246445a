//! The pipeline configuration: plain settings records with their documented
//! defaults, and the helpers that derive paths and display strings from
//! them.  Reading `lisa.toml` from disk is I/O and lives outside the
//! library; the values arrive here as plain fields.

use vstd::prelude::*;

use crate::text::strs_view;

verus! {

/// The project section: its name.
#[derive(Debug, Clone)]
pub struct ProjectConfig {
    pub name: String,
}

/// Which model each phase runs with.
#[derive(Debug, Clone)]
pub struct ModelsConfig {
    pub scope: String,
    pub refine: String,
    pub ddv: String,
    pub build: String,
    pub execute: String,
    pub validate: String,
}

impl Default for ModelsConfig {
    /// The documented defaults: `opus` everywhere but the build phase,
    /// which runs `sonnet`.
    fn default() -> (r: ModelsConfig)
        ensures
            r.scope@ == "opus"@,
            r.refine@ == "opus"@,
            r.ddv@ == "opus"@,
            r.build@ == "sonnet"@,
            r.execute@ == "opus"@,
            r.validate@ == "opus"@,
    {
        ModelsConfig {
            scope: "opus".to_owned(),
            refine: "opus".to_owned(),
            ddv: "opus".to_owned(),
            build: "sonnet".to_owned(),
            execute: "opus".to_owned(),
            validate: "opus".to_owned(),
        }
    }
}

/// Iteration, pass and budget limits.  The budget is in millionths of a
/// dollar; zero or less means unlimited.
#[derive(Debug, Clone)]
pub struct LimitsConfig {
    pub max_spiral_passes: u32,
    pub max_ralph_iterations: u32,
    pub stall_threshold: u32,
    pub budget_micro_usd: i64,
    pub budget_warn_pct: u32,
}

impl Default for LimitsConfig {
    /// The documented defaults: five passes, fifty build iterations, a
    /// stall threshold of two, no budget, warning at eighty per cent.
    fn default() -> (r: LimitsConfig)
        ensures
            r.max_spiral_passes == 5,
            r.max_ralph_iterations == 50,
            r.stall_threshold == 2,
            r.budget_micro_usd == 0,
            r.budget_warn_pct == 80,
    {
        LimitsConfig {
            max_spiral_passes: 5,
            max_ralph_iterations: 50,
            stall_threshold: 2,
            budget_micro_usd: 0,
            budget_warn_pct: 80,
        }
    }
}

/// Whether human review gates pause the run.
#[derive(Debug, Clone)]
pub struct ReviewConfig {
    pub pause: bool,
}

impl Default for ReviewConfig {
    /// Gates pause by default.
    fn default() -> (r: ReviewConfig)
        ensures
            r.pause,
    {
        ReviewConfig { pause: true }
    }
}

/// Version-control behaviour.
#[derive(Debug, Clone)]
pub struct GitConfig {
    pub auto_commit: bool,
    pub auto_push: bool,
}

impl Default for GitConfig {
    /// Commit automatically; do not push.
    fn default() -> (r: GitConfig)
        ensures
            r.auto_commit,
            !r.auto_push,
    {
        GitConfig { auto_commit: true, auto_push: false }
    }
}

/// Terminal display behaviour.
#[derive(Debug, Clone)]
pub struct TerminalConfig {
    pub collapse_output: bool,
}

impl Default for TerminalConfig {
    /// Collapse agent streaming output by default.
    fn default() -> (r: TerminalConfig)
        ensures
            r.collapse_output,
    {
        TerminalConfig { collapse_output: true }
    }
}

/// Where process artifacts, deliverable sources and tests live, relative to
/// the project root.
#[derive(Debug, Clone)]
pub struct PathsConfig {
    pub lisa_root: String,
    pub source: Vec<String>,
    pub tests_ddv: String,
    pub tests_software: String,
    pub tests_integration: String,
}

impl Default for PathsConfig {
    /// The documented defaults.
    fn default() -> (r: PathsConfig)
        ensures
            r.lisa_root@ == ".lisa"@,
            strs_view(r.source@) =~= seq!["src"@],
            r.tests_ddv@ == "tests/ddv"@,
            r.tests_software@ == "tests/software"@,
            r.tests_integration@ == "tests/integration"@,
    {
        let mut source: Vec<String> = Vec::new();
        source.push("src".to_owned());
        PathsConfig {
            lisa_root: ".lisa".to_owned(),
            source,
            tests_ddv: "tests/ddv".to_owned(),
            tests_software: "tests/software".to_owned(),
            tests_integration: "tests/integration".to_owned(),
        }
    }
}

/// The project commands the scope agent fills in.
#[derive(Debug, Clone)]
pub struct CommandsConfig {
    pub setup: String,
    pub build: String,
    pub test_all: String,
    pub test_ddv: String,
    pub test_software: String,
    pub test_integration: String,
    pub lint: String,
}

impl Default for CommandsConfig {
    /// All commands start empty.
    fn default() -> (r: CommandsConfig)
        ensures
            r.setup@.len() == 0,
            r.build@.len() == 0,
            r.test_all@.len() == 0,
            r.test_ddv@.len() == 0,
            r.test_software@.len() == 0,
            r.test_integration@.len() == 0,
            r.lint@.len() == 0,
    {
        CommandsConfig {
            setup: String::new(),
            build: String::new(),
            test_all: String::new(),
            test_ddv: String::new(),
            test_software: String::new(),
            test_integration: String::new(),
            lint: String::new(),
        }
    }
}

/// The whole configuration.
#[derive(Debug, Clone)]
pub struct Config {
    pub project: ProjectConfig,
    pub models: ModelsConfig,
    pub limits: LimitsConfig,
    pub review: ReviewConfig,
    pub git: GitConfig,
    pub terminal: TerminalConfig,
    pub paths: PathsConfig,
    pub commands: CommandsConfig,
}

/// Parts joined with `, ` between them.
pub open spec fn spec_join_comma(parts: Seq<Seq<char>>) -> Seq<char>
    decreases parts.len(),
{
    if parts.len() == 0 {
        Seq::empty()
    } else if parts.len() == 1 {
        parts[0]
    } else {
        spec_join_comma(parts.drop_last()) + ", "@ + parts.last()
    }
}

impl Config {
    /// The directory the pipeline's artifacts live under: the configured
    /// artifact directory joined under the project root.
    pub fn lisa_root(&self, project_root: &str) -> (r: String)
        ensures
            r@ == project_root@ + "/"@ + self.paths.lisa_root@,
    {
        let mut s = project_root.to_owned();
        s.append("/");
        s.append(self.paths.lisa_root.as_str());
        s
    }

    /// The configured source directories as one comma-separated string.
    pub fn source_dirs_display(&self) -> (r: String)
        ensures
            r@ == spec_join_comma(strs_view(self.paths.source@)),
    {
        let parts = &self.paths.source;
        let ghost ps = strs_view(parts@);
        let mut out = String::new();
        let mut i: usize = 0;
        while i < parts.len()
            invariant
                ps == strs_view(parts@),
                parts@.len() == ps.len(),
                0 <= i <= parts@.len(),
                out@ == spec_join_comma(ps.subrange(0, i as int)),
            decreases parts.len() - i,
        {
            proof {
                assert(ps[i as int] == parts@[i as int]@);
                assert(ps.subrange(0, i + 1).drop_last() =~= ps.subrange(0, i as int));
                assert(ps.subrange(0, i + 1).last() == ps[i as int]);
            }
            if i > 0 {
                out.append(", ");
            }
            out.append(parts[i].as_str());
            proof {
                if i == 0 {
                    assert(out@ =~= ps.subrange(0, 1)[0]);
                }
            }
            i = i + 1;
        }
        proof {
            assert(ps.subrange(0, ps.len() as int) =~= ps);
        }
        out
    }
}

/// The default `lisa.toml` text for a project called `name`.
pub fn default_config_toml(name: &str) -> (r: String)
    ensures
        r@ == "[project]\nname = \""@ + name@ + "\"\n\n[models]\nscope = \"opus\"\nrefine = \"opus\"\nddv = \"opus\"\nbuild = \"sonnet\"\nexecute = \"opus\"\nvalidate = \"opus\"\n\n[limits]\nmax_spiral_passes = 5\nmax_ralph_iterations = 50\nstall_threshold = 2\n# budget_micro_usd = 0  # 0 = unlimited\n# budget_warn_pct = 80  # warn at this % of budget\n\n[review]\n# Human review gates. When false, loop runs fully autonomously.\npause = true\n\n[git]\nauto_commit = true\nauto_push = false\n\n[terminal]\n# Collapse agent streaming output to summary lines after completion\ncollapse_output = true\n\n[paths]\n# Where process artifacts live (relative to project root)\nlisa_root = \".lisa\"\n\n# Where deliverable code goes (relative to project root)\nsource = [\"src\"]\n\n# Test directories (relative to project root)\ntests_ddv = \"tests/ddv\"\ntests_software = \"tests/software\"\ntests_integration = \"tests/integration\"\n\n[commands]\n# These get populated by the scope agent, but can be pre-filled\nsetup = \"\"\nbuild = \"\"\ntest_all = \"\"\ntest_ddv = \"\"\ntest_software = \"\"\ntest_integration = \"\"\nlint = \"\"\n"@,
{
    let mut s = "[project]\nname = \"".to_owned();
    s.append(name);
    s.append(
        "\"\n\n[models]\nscope = \"opus\"\nrefine = \"opus\"\nddv = \"opus\"\nbuild = \"sonnet\"\nexecute = \"opus\"\nvalidate = \"opus\"\n\n[limits]\nmax_spiral_passes = 5\nmax_ralph_iterations = 50\nstall_threshold = 2\n# budget_micro_usd = 0  # 0 = unlimited\n# budget_warn_pct = 80  # warn at this % of budget\n\n[review]\n# Human review gates. When false, loop runs fully autonomously.\npause = true\n\n[git]\nauto_commit = true\nauto_push = false\n\n[terminal]\n# Collapse agent streaming output to summary lines after completion\ncollapse_output = true\n\n[paths]\n# Where process artifacts live (relative to project root)\nlisa_root = \".lisa\"\n\n# Where deliverable code goes (relative to project root)\nsource = [\"src\"]\n\n# Test directories (relative to project root)\ntests_ddv = \"tests/ddv\"\ntests_software = \"tests/software\"\ntests_integration = \"tests/integration\"\n\n[commands]\n# These get populated by the scope agent, but can be pre-filled\nsetup = \"\"\nbuild = \"\"\ntest_all = \"\"\ntest_ddv = \"\"\ntest_software = \"\"\ntest_integration = \"\"\nlint = \"\"\n",
    );
    s
}

} // verus!
