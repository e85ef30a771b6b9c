//! How a source file is built and run: per-extension language
//! configurations, their layering and per-OS overrides, the commands with the
//! file's names filled in, and the text that goes in and comes out.
use vstd::prelude::*;
use crate::text::{join_strings, join_with, owned, replace_all, replace_str, str_eq};

verus! {

/// Commands that replace the defaults on one operating system.
pub struct OsSpecificConfig {
    pub build: Option<Vec<String>>,
    pub run: Option<Vec<String>>,
}

/// How to build (optionally) and run files of one extension, with per-OS
/// overrides.
pub struct LangConfig {
    pub build: Option<Vec<String>>,
    pub run: Vec<String>,
    pub windows: Option<OsSpecificConfig>,
    pub macos: Option<OsSpecificConfig>,
    pub linux: Option<OsSpecificConfig>,
}

/// The operating system the tool runs on; `Linux` stands for every system
/// that is neither Windows nor macOS.
#[derive(Clone, Copy, Debug, PartialEq, Eq, Structural)]
pub enum TargetOs {
    Windows,
    Macos,
    Linux,
}

/// The configuration with the overrides of `os` applied: an override's build
/// command replaces the default one when it is given, and so does its run
/// command; the override of `os` itself is used up.
pub open spec fn resolved(c: LangConfig, os: TargetOs) -> LangConfig {
    let spec_os = match os {
        TargetOs::Windows => c.windows,
        TargetOs::Macos => c.macos,
        TargetOs::Linux => c.linux,
    };
    let build = match spec_os {
        Some(o) => if o.build is Some {
            o.build
        } else {
            c.build
        },
        None => c.build,
    };
    let run = match spec_os {
        Some(o) => match o.run {
            Some(r) => r,
            None => c.run,
        },
        None => c.run,
    };
    LangConfig {
        build,
        run,
        windows: if os == TargetOs::Windows {
            None
        } else {
            c.windows
        },
        macos: if os == TargetOs::Macos {
            None
        } else {
            c.macos
        },
        linux: if os == TargetOs::Linux {
            None
        } else {
            c.linux
        },
    }
}

impl LangConfig {
    /// Applies the overrides of `os`.
    pub fn resolve_os(self, os: TargetOs) -> (r: Self)
        ensures
            r == resolved(self, os),
    {
        let mut s = self;
        let mut os_config: Option<OsSpecificConfig> = None;
        match os {
            TargetOs::Windows => std::mem::swap(&mut os_config, &mut s.windows),
            TargetOs::Macos => std::mem::swap(&mut os_config, &mut s.macos),
            TargetOs::Linux => std::mem::swap(&mut os_config, &mut s.linux),
        }
        if let Some(spec) = os_config {
            if spec.build.is_some() {
                s.build = spec.build;
            }
            if let Some(run) = spec.run {
                s.run = run;
            }
        }
        s
    }
}

/// The override of `os` in `c`, if any.
pub open spec fn override_for(c: LangConfig, os: TargetOs) -> Option<OsSpecificConfig> {
    match os {
        TargetOs::Windows => c.windows,
        TargetOs::Macos => c.macos,
        TargetOs::Linux => c.linux,
    }
}

/// Each part of an override for the running system replaces the default on
/// its own: a given run command becomes the run command whether or not the
/// override also gives a build command, and a given build command becomes the
/// build command whether or not it also gives a run command; what it does not
/// give stays as it was. The overrides of other systems are kept.
pub proof fn law_override_parts(c: LangConfig, os: TargetOs)
    ensures
        (override_for(c, os) is Some && override_for(c, os)->0.run is Some) ==> resolved(c, os).run
            == override_for(c, os)->0.run->0,
        (override_for(c, os) is Some && override_for(c, os)->0.build is Some) ==> resolved(c, os).build
            == override_for(c, os)->0.build,
        (override_for(c, os) is None || override_for(c, os)->0.run is None) ==> resolved(c, os).run
            == c.run,
        (override_for(c, os) is None || override_for(c, os)->0.build is None) ==> resolved(c, os).build
            == c.build,
        override_for(resolved(c, os), os) is None,
        forall|other: TargetOs| other != os ==> #[trigger] override_for(resolved(c, os), other)
            == override_for(c, other),
{
    let r = resolved(c, os);
    match override_for(c, os) {
        Some(o) => {
            match o.run {
                Some(x) => assert(r.run == x),
                None => {},
            }
            match o.build {
                Some(b) => assert(r.build == Some(b)),
                None => {},
            }
        },
        None => {},
    }
}

// ---------------------------------------------------------------------------
// A table of configurations by extension
// ---------------------------------------------------------------------------

/// The map that a list of entries describes, later entries taking precedence.
pub open spec fn entries_map(s: Seq<(String, LangConfig)>) -> Map<Seq<char>, LangConfig>
    decreases s.len(),
{
    if s.len() == 0 {
        Map::empty()
    } else {
        entries_map(s.drop_last()).insert(s.last().0@, s.last().1)
    }
}

pub open spec fn keys_unique(s: Seq<(String, LangConfig)>) -> bool {
    forall|i: int, j: int| 0 <= i < j < s.len() ==> s[i].0@ != s[j].0@
}

proof fn lemma_entries_dom(s: Seq<(String, LangConfig)>, k: Seq<char>)
    ensures
        entries_map(s).contains_key(k) <==> exists|i: int| 0 <= i < s.len() && #[trigger] s[i].0@ == k,
    decreases s.len(),
{
    if s.len() > 0 {
        lemma_entries_dom(s.drop_last(), k);
        if exists|i: int| 0 <= i < s.drop_last().len() && #[trigger] s.drop_last()[i].0@ == k {
            let i = choose|i: int| 0 <= i < s.drop_last().len() && #[trigger] s.drop_last()[i].0@ == k;
            assert(s[i].0@ == k);
        }
        if exists|i: int| 0 <= i < s.len() && #[trigger] s[i].0@ == k {
            let i = choose|i: int| 0 <= i < s.len() && #[trigger] s[i].0@ == k;
            if i < s.len() - 1 {
                assert(s.drop_last()[i].0@ == k);
            }
        }
    }
}

proof fn lemma_entries_value(s: Seq<(String, LangConfig)>, i: int)
    requires
        keys_unique(s),
        0 <= i < s.len(),
    ensures
        entries_map(s).contains_key(s[i].0@),
        entries_map(s)[s[i].0@] == s[i].1,
    decreases s.len(),
{
    if i < s.len() - 1 {
        assert(s.drop_last()[i] == s[i]);
        lemma_entries_value(s.drop_last(), i);
        assert(s[i].0@ != s[s.len() - 1].0@);
    }
}

proof fn lemma_entries_update(s: Seq<(String, LangConfig)>, i: int, e: (String, LangConfig))
    requires
        keys_unique(s),
        0 <= i < s.len(),
        e.0@ == s[i].0@,
    ensures
        entries_map(s.update(i, e)) == entries_map(s).insert(e.0@, e.1),
        keys_unique(s.update(i, e)),
    decreases s.len(),
{
    let t = s.update(i, e);
    if i == s.len() - 1 {
        assert(t.drop_last() =~= s.drop_last());
        assert(entries_map(t) =~= entries_map(s).insert(e.0@, e.1));
    } else {
        assert(t.drop_last() =~= s.drop_last().update(i, e));
        lemma_entries_update(s.drop_last(), i, e);
        assert(s[i].0@ != s[s.len() - 1].0@);
        assert(entries_map(t) =~= entries_map(s).insert(e.0@, e.1));
    }
}

/// Language configurations by file extension.
pub struct LangTable {
    entries: Vec<(String, LangConfig)>,
}

impl View for LangTable {
    type V = Map<Seq<char>, LangConfig>;

    closed spec fn view(&self) -> Map<Seq<char>, LangConfig> {
        entries_map(self.entries@)
    }
}

impl LangTable {
    #[verifier::type_invariant]
    closed spec fn inv(self) -> bool {
        keys_unique(self.entries@)
    }

    /// An empty table.
    pub fn new() -> (t: LangTable)
        ensures
            t@ == Map::<Seq<char>, LangConfig>::empty(),
    {
        LangTable { entries: Vec::new() }
    }

    fn find(&self, ext: &str) -> (r: Option<usize>)
        ensures
            match r {
                Some(i) => i < self.entries@.len() && self.entries@[i as int].0@ == ext@,
                None => forall|i: int|
                    0 <= i < self.entries@.len() ==> #[trigger] self.entries@[i].0@ != ext@,
            },
    {
        let mut i: usize = 0;
        while i < self.entries.len()
            invariant
                i <= self.entries@.len(),
                forall|k: int| 0 <= k < i ==> #[trigger] self.entries@[k].0@ != ext@,
            decreases self.entries@.len() - i,
        {
            if str_eq(self.entries[i].0.as_str(), ext) {
                return Some(i);
            }
            i += 1;
        }
        None
    }

    /// The configuration for extension `ext`, if there is one.
    pub fn get(&self, ext: &str) -> (r: Option<&LangConfig>)
        ensures
            match r {
                Some(c) => self@.contains_key(ext@) && *c == self@[ext@],
                None => !self@.contains_key(ext@),
            },
    {
        proof {
            use_type_invariant(self);
            lemma_entries_dom(self.entries@, ext@);
        }
        match self.find(ext) {
            Some(i) => {
                proof {
                    lemma_entries_value(self.entries@, i as int);
                }
                Some(&self.entries[i].1)
            },
            None => None,
        }
    }

    /// There is a configuration for extension `ext`.
    pub fn contains_key(&self, ext: &str) -> (b: bool)
        ensures
            b == self@.contains_key(ext@),
    {
        proof {
            use_type_invariant(self);
            lemma_entries_dom(self.entries@, ext@);
        }
        self.find(ext).is_some()
    }

    /// Sets the configuration of `key`, replacing any earlier one.
    pub fn insert(&mut self, key: String, cfg: LangConfig)
        ensures
            final(self)@ == old(self)@.insert(key@, cfg),
    {
        proof {
            use_type_invariant(&*self);
        }
        let ghost k = key@;
        match self.find(key.as_str()) {
            Some(i) => {
                let ghost s = self.entries@;
                proof {
                    lemma_entries_update(s, i as int, (key, cfg));
                }
                let mut entries = Vec::new();
                std::mem::swap(&mut entries, &mut self.entries);
                entries.set(i, (key, cfg));
                self.entries = entries;
            },
            None => {
                let ghost s = self.entries@;
                let mut entries = Vec::new();
                std::mem::swap(&mut entries, &mut self.entries);
                entries.push((key, cfg));
                proof {
                    assert(entries@.drop_last() =~= s);
                    assert forall|i: int, j: int|
                        0 <= i < j < entries@.len() implies entries@[i].0@ != entries@[j].0@ by {
                        if j < s.len() {
                            assert(entries@[i] == s[i] && entries@[j] == s[j]);
                        } else {
                            assert(entries@[i] == s[i]);
                        }
                    }
                }
                self.entries = entries;
            },
        }
    }

    /// A table of the entries in order, a later entry for a key replacing an
    /// earlier one.
    pub fn from_entries(entries: Vec<(String, LangConfig)>) -> (t: LangTable)
        ensures
            t@ == entries_map(entries@),
    {
        let mut t = LangTable::new();
        let mut rest = entries;
        let ghost all = rest@;
        let n = rest.len();
        let mut i: usize = 0;
        proof {
            assert(all.skip(0) =~= all);
            assert(all.take(0) =~= Seq::<(String, LangConfig)>::empty());
        }
        while rest.len() > 0
            invariant
                rest@ == all.skip(i as int),
                i <= all.len(),
                n == all.len(),
                t@ == entries_map(all.take(i as int)),
            decreases rest@.len(),
        {
            let (k, c) = rest.remove(0);
            proof {
                assert(all.take(i + 1).drop_last() =~= all.take(i as int));
                assert(all.skip(i as int)[0] == all[i as int]);
                assert(all.skip(i + 1) =~= all.skip(i as int).subrange(1, all.skip(i as int).len() as int));
            }
            t.insert(k, c);
            i += 1;
        }
        proof {
            assert(all.take(i as int) =~= all);
        }
        t
    }

    /// Adds the entries of `other`, which take precedence over this table's.
    pub fn extend(&mut self, other: LangTable)
        ensures
            final(self)@ == old(self)@.union_prefer_right(other@),
    {
        let ghost start = self@;
        let LangTable { entries } = other;
        let mut rest = entries;
        let ghost all = rest@;
        let n = rest.len();
        let mut i: usize = 0;
        proof {
            assert(all.skip(0) =~= all);
            assert(start.union_prefer_right(entries_map(all.take(0))) =~= start);
        }
        while rest.len() > 0
            invariant
                rest@ == all.skip(i as int),
                i <= all.len(),
                n == all.len(),
                self@ == start.union_prefer_right(entries_map(all.take(i as int))),
            decreases rest@.len(),
        {
            let (k, c) = rest.remove(0);
            proof {
                assert(all.take(i + 1).drop_last() =~= all.take(i as int));
                assert(all.skip(i as int)[0] == all[i as int]);
                assert(all.skip(i + 1) =~= all.skip(i as int).subrange(1, all.skip(i as int).len() as int));
            }
            self.insert(k, c);
            i += 1;
            proof {
                assert(self@ =~= start.union_prefer_right(entries_map(all.take(i as int))));
            }
        }
        proof {
            assert(all.take(i as int) =~= all);
        }
    }

    /// Every configuration with the overrides of `os` applied.
    pub fn resolve_all(self, os: TargetOs) -> (t: LangTable)
        ensures
            t@ == self@.map_values(|c: LangConfig| resolved(c, os)),
    {
        proof {
            use_type_invariant(&self);
        }
        let ghost start = self@;
        let LangTable { entries } = self;
        let ghost all = entries@;
        let mut t = LangTable::new();
        let mut rest = entries;
        let n = rest.len();
        let mut i: usize = 0;
        proof {
            assert(all.skip(0) =~= all);
        }
        while rest.len() > 0
            invariant
                rest@ == all.skip(i as int),
                i <= all.len(),
                n == all.len(),
                keys_unique(all),
                start == entries_map(all),
                t@ == entries_map(all.take(i as int)).map_values(|c: LangConfig| resolved(c, os)),
            decreases rest@.len(),
        {
            let (k, c) = rest.remove(0);
            proof {
                assert(all.take(i + 1).drop_last() =~= all.take(i as int));
                assert(all.skip(i as int)[0] == all[i as int]);
                assert(all.skip(i + 1) =~= all.skip(i as int).subrange(1, all.skip(i as int).len() as int));
            }
            let r = c.resolve_os(os);
            t.insert(k, r);
            i += 1;
            proof {
                assert(t@ =~= entries_map(all.take(i as int)).map_values(
                    |c: LangConfig| resolved(c, os),
                ));
            }
        }
        proof {
            assert(all.take(i as int) =~= all);
        }
        t
    }
}

/// Layering: each later table's configurations replace the earlier ones
/// for the same extension, and nothing else changes.
pub proof fn law_layering(base: Map<Seq<char>, LangConfig>, over: Map<Seq<char>, LangConfig>, ext: Seq<char>)
    ensures
        over.contains_key(ext) ==> base.union_prefer_right(over)[ext] == over[ext],
        !over.contains_key(ext) && base.contains_key(ext) ==> base.union_prefer_right(over)[ext]
            == base[ext],
        base.union_prefer_right(over).contains_key(ext) <==> (base.contains_key(ext)
            || over.contains_key(ext)),
{
}

// ---------------------------------------------------------------------------
// Commands
// ---------------------------------------------------------------------------

/// The names of the file that commands may refer to: the full path, the
/// directory that holds it (absent for a bare name), and its stem.
pub struct FileParts {
    pub path: String,
    pub parent: Option<String>,
    pub stem: String,
}

/// The directory as it is written into commands: an absent or empty parent
/// reads as `.`.
pub open spec fn dir_text(parent: Option<String>) -> Seq<char> {
    match parent {
        Some(p) => if p@.len() == 0 {
            "."@
        } else {
            p@
        },
        None => "."@,
    }
}

/// One command word with `{file}`, then `{dir}`, then `{file_stem}` filled in.
pub open spec fn fill_vars(arg: Seq<char>, file: FileParts) -> Seq<char> {
    replace_all(
        replace_all(replace_all(arg, "{file}"@, file.path@), "{dir}"@, dir_text(file.parent)),
        "{file_stem}"@,
        file.stem@,
    )
}

pub open spec fn strings_view(v: Seq<String>) -> Seq<Seq<char>> {
    v.map_values(|s: String| s@)
}

/// Every command word with the file's names filled in.
pub fn replace_vars(args: &Vec<String>, file: &FileParts) -> (r: Vec<String>)
    ensures
        r@.len() == args@.len(),
        forall|k: int| 0 <= k < args@.len() ==> #[trigger] r@[k]@ == fill_vars(args@[k]@, *file),
{
    let dir = match &file.parent {
        Some(p) => if p.as_str().is_empty() {
            String::from_str(".")
        } else {
            owned(p.as_str())
        },
        None => String::from_str("."),
    };
    proof {
        reveal_strlit("{file}");
        reveal_strlit("{dir}");
        reveal_strlit("{file_stem}");
    }
    let mut r: Vec<String> = Vec::new();
    let mut i: usize = 0;
    while i < args.len()
        invariant
            i <= args@.len(),
            r@.len() == i,
            dir@ == dir_text(file.parent),
            "{file}"@.len() > 0,
            "{dir}"@.len() > 0,
            "{file_stem}"@.len() > 0,
            forall|k: int| 0 <= k < i ==> #[trigger] r@[k]@ == fill_vars(args@[k]@, *file),
        decreases args@.len() - i,
    {
        let a = replace_str(args[i].as_str(), "{file}", file.path.as_str());
        let b = replace_str(a.as_str(), "{dir}", dir.as_str());
        let c = replace_str(b.as_str(), "{file_stem}", file.stem.as_str());
        r.push(c);
        i += 1;
    }
    r
}

/// Why a file cannot be run.
#[derive(Debug)]
pub enum RunError {
    NoExtension,
    NoConfiguration(String),
    EmptyBuildCommand,
    EmptyRunCommand,
}

impl RunError {
    /// The message shown for the error.
    pub fn message(&self) -> (m: String)
        ensures
            m@ == match self {
                RunError::NoExtension => "File has no extension"@,
                RunError::NoConfiguration(ext) => "No configuration for extension: "@ + ext@,
                RunError::EmptyBuildCommand => "Empty build command"@,
                RunError::EmptyRunCommand => "Empty run command"@,
            },
    {
        match self {
            RunError::NoExtension => String::from_str("File has no extension"),
            RunError::NoConfiguration(ext) => {
                let mut m = String::from_str("No configuration for extension: ");
                m.append(ext.as_str());
                m
            },
            RunError::EmptyBuildCommand => String::from_str("Empty build command"),
            RunError::EmptyRunCommand => String::from_str("Empty run command"),
        }
    }
}

/// The commands for one file: an optional build command (never empty) and
/// the run command (checked once the build has succeeded).
pub struct RunPlan {
    pub build: Option<Vec<String>>,
    pub run: Vec<String>,
}

pub open spec fn filled(args: Seq<String>, file: FileParts) -> Seq<Seq<char>> {
    args.map_values(|a: String| fill_vars(a@, file))
}

/// The commands for a file with extension `ext` (absent when the file has
/// none), from the configurations in `table`.
pub fn plan_run(ext: Option<&str>, table: &LangTable, file: &FileParts) -> (r: Result<
    RunPlan,
    RunError,
>)
    ensures
        match r {
            Err(RunError::NoExtension) => ext is None,
            Err(RunError::NoConfiguration(e)) => ext is Some && e@ == ext->0@
                && !table@.contains_key(ext->0@),
            Err(RunError::EmptyBuildCommand) => ext is Some && table@.contains_key(ext->0@)
                && table@[ext->0@].build is Some && table@[ext->0@].build->0@.len() == 0,
            Err(RunError::EmptyRunCommand) => false,
            Ok(plan) => ext is Some && table@.contains_key(ext->0@) && {
                let c = table@[ext->0@];
                &&& strings_view(plan.run@) == filled(c.run@, *file)
                &&& (plan.build is Some <==> c.build is Some)
                &&& c.build matches Some(b) ==> b@.len() > 0 && strings_view(plan.build->0@)
                    == filled(b@, *file)
            },
        },
{
    let e = match ext {
        Some(e) => e,
        None => return Err(RunError::NoExtension),
    };
    let config = match table.get(e) {
        Some(c) => c,
        None => return Err(RunError::NoConfiguration(owned(e))),
    };
    let build = match &config.build {
        Some(b) => {
            let args = replace_vars(b, file);
            if args.len() == 0 {
                return Err(RunError::EmptyBuildCommand);
            }
            proof {
                assert(strings_view(args@) =~= filled(b@, *file));
            }
            Some(args)
        },
        None => None,
    };
    let run = replace_vars(&config.run, file);
    proof {
        assert(strings_view(run@) =~= filled(config.run@, *file));
    }
    Ok(RunPlan { build, run })
}

/// The run command of a plan, once the build (if any) has succeeded.
pub fn run_command(plan: &RunPlan) -> (r: Result<&Vec<String>, RunError>)
    ensures
        match r {
            Ok(v) => *v == plan.run && plan.run@.len() > 0,
            Err(e) => e is EmptyRunCommand && plan.run@.len() == 0,
        },
{
    if plan.run.len() == 0 {
        Err(RunError::EmptyRunCommand)
    } else {
        Ok(&plan.run)
    }
}

/// The words of a command joined by single spaces, as it is reported.
pub fn command_line(args: &Vec<String>) -> (s: String)
    ensures
        s@ == join_with(strings_view(args@), " "@),
{
    join_strings(args, " ")
}

/// The result reported when the build fails: the build command and what it
/// wrote to standard error.
pub fn build_failure(build: &Vec<String>, stderr: &str) -> (r: (String, String))
    ensures
        r.0@ == join_with(strings_view(build@), " "@),
        r.1@ == stderr@,
{
    (command_line(build), owned(stderr))
}

/// Input text with the escapes `\n`, `\r` and `\t` written out as the
/// characters they stand for.
pub open spec fn unescape_input(inp: Seq<char>) -> Seq<char> {
    replace_all(replace_all(replace_all(inp, "\\n"@, "\n"@), "\\r"@, "\r"@), "\\t"@, "\t"@)
}

pub fn prepare_input(inp: &str) -> (r: String)
    ensures
        r@ == unescape_input(inp@),
{
    proof {
        reveal_strlit("\\n");
        reveal_strlit("\\r");
        reveal_strlit("\\t");
    }
    let a = replace_str(inp, "\\n", "\n");
    let b = replace_str(a.as_str(), "\\r", "\r");
    replace_str(b.as_str(), "\\t", "\t")
}

/// The program's output with the `^D` that the terminal echoes at end of
/// input removed, together with two backspaces that follow it.
pub open spec fn clean_output_spec(out: Seq<char>) -> Seq<char> {
    replace_all(replace_all(out, "^D\u{8}\u{8}"@, ""@), "^D"@, ""@)
}

pub fn clean_output(out: &str) -> (r: String)
    ensures
        r@ == clean_output_spec(out@),
{
    proof {
        reveal_strlit("^D\u{8}\u{8}");
        reveal_strlit("^D");
    }
    let a = replace_str(out, "^D\u{8}\u{8}", "");
    replace_str(a.as_str(), "^D", "")
}

/// The output reported when the program is stopped after the time limit.
pub fn timeout_output(partial: &str) -> (r: String)
    ensures
        r@ == partial@ + "\n\n[Timeout after 10 seconds]"@,
{
    let mut r = owned(partial);
    r.append("\n\n[Timeout after 10 seconds]");
    r
}

} // verus!
