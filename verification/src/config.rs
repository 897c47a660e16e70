use vstd::prelude::*;
use vstd::string::StringExecFns;
use crate::errors::SupervisorError;
use crate::text::{
    trim_spec, trim_str, find_first, find_char_from, lemma_find_first_unique,
};
use crate::paths::parent_len;
use crate::json::{JsonTree, json_tree_of, json_view, json_parse, json_get, json_as_str};
use crate::yaml::{YamlTree, yaml_tree_of, yaml_view, yaml_parse, yaml_get, yaml_as_str,
    yaml_as_bool, yaml_as_sequence};

verus! {

/// One process of a project: an opaque shell command executed through the
/// user's interactive login shell, with its restart policy.
#[derive(Clone, Debug, PartialEq, Eq)]
pub struct ProcessConfig {
    pub name: String,
    pub command: String,
    pub autostart: bool,
    pub autorestart: bool,
}

/// A project's configuration: its display name and its processes.
#[derive(Clone, Debug, PartialEq, Eq)]
pub struct ProjectConfig {
    pub name: String,
    pub processes: Vec<ProcessConfig>,
}

/// The contents of a configuration file together with the path it was read
/// from.
#[derive(Clone, Debug, PartialEq, Eq)]
pub struct ConfigFilePayload {
    pub path: String,
    pub contents: String,
}

/// `dir` and `name` joined with a single '/' separator.
pub open spec fn path_join_spec(dir: Seq<char>, name: Seq<char>) -> Seq<char> {
    if dir.len() == 0 {
        name
    } else if dir.last() == '/' {
        dir + name
    } else {
        dir + "/"@ + name
    }
}

/// Joins a directory path and a file name.
pub fn path_join(dir: &str, name: &str) -> (r: String)
    ensures
        r@ == path_join_spec(dir@, name@),
{
    let n: usize = dir.unicode_len();
    let mut s: String = dir.to_owned();
    if n == 0 {
        s.append(name);
        proof {
            assert(dir@ + name@ =~= name@);
        }
        s
    } else if dir.get_char(n - 1) == '/' {
        s.append(name);
        s
    } else {
        s.append("/");
        s.append(name);
        s
    }
}

/// The two file names accepted per project directory, in the order they are
/// tried: "myterm.yml" first, "myterm.yaml" second.
pub fn config_path_candidates(project_path: &str) -> (r: Vec<String>)
    ensures
        r@.len() == 2,
        r@[0]@ == path_join_spec(project_path@, "myterm.yml"@),
        r@[1]@ == path_join_spec(project_path@, "myterm.yaml"@),
{
    let mut v: Vec<String> = Vec::new();
    v.push(path_join(project_path, "myterm.yml"));
    v.push(path_join(project_path, "myterm.yaml"));
    v
}

/// The first configuration file of the project that exists, given the
/// existence of the two candidates; first match wins.
pub fn find_existing_config_path(project_path: &str, yml_exists: bool, yaml_exists: bool) -> (r:
    Option<String>)
    ensures
        yml_exists ==> (r matches Some(p) && p@ == path_join_spec(project_path@, "myterm.yml"@)),
        !yml_exists && yaml_exists ==> (r matches Some(p) && p@ == path_join_spec(
            project_path@,
            "myterm.yaml"@,
        )),
        !yml_exists && !yaml_exists ==> r is None,
{
    if yml_exists {
        Some(path_join(project_path, "myterm.yml"))
    } else if yaml_exists {
        Some(path_join(project_path, "myterm.yaml"))
    } else {
        None
    }
}

/// The configuration file a read goes to, or `ConfigMissing` when the
/// project has none.
pub fn config_file_to_read(project_path: &str, yml_exists: bool, yaml_exists: bool) -> (r: Result<
    String,
    SupervisorError,
>)
    ensures
        yml_exists ==> (r matches Ok(p) && p@ == path_join_spec(project_path@, "myterm.yml"@)),
        !yml_exists && yaml_exists ==> (r matches Ok(p) && p@ == path_join_spec(
            project_path@,
            "myterm.yaml"@,
        )),
        !yml_exists && !yaml_exists ==> r == Err::<String, SupervisorError>(
            SupervisorError::ConfigMissing,
        ),
{
    match find_existing_config_path(project_path, yml_exists, yaml_exists) {
        Some(p) => Ok(p),
        None => Err(SupervisorError::ConfigMissing),
    }
}

/// The configuration file a write goes to: the existing file if there is
/// one, else the default "myterm.yml" in the project directory.
pub fn config_file_to_write(project_path: &str, yml_exists: bool, yaml_exists: bool) -> (r: String)
    ensures
        yml_exists ==> r@ == path_join_spec(project_path@, "myterm.yml"@),
        !yml_exists && yaml_exists ==> r@ == path_join_spec(project_path@, "myterm.yaml"@),
        !yml_exists && !yaml_exists ==> r@ == path_join_spec(project_path@, "myterm.yml"@),
{
    match find_existing_config_path(project_path, yml_exists, yaml_exists) {
        Some(p) => p,
        None => path_join(project_path, "myterm.yml"),
    }
}

/// `p` with trailing '/' characters removed.
pub open spec fn strip_trailing_slashes(p: Seq<char>) -> Seq<char>
    decreases p.len(),
{
    if p.len() > 0 && p.last() == '/' {
        strip_trailing_slashes(p.drop_last())
    } else {
        p
    }
}

/// `s` holds the character `c` somewhere.
pub open spec fn contains_char(s: Seq<char>, c: char) -> bool {
    exists|i: int| 0 <= i < s.len() && s[i] == c
}

/// The project's display name as read off its directory path: the last
/// path component (ignoring trailing slashes), or "project" when the path
/// has none.
pub open spec fn project_name_spec(p: Seq<char>) -> Seq<char> {
    let q = strip_trailing_slashes(p);
    if q.len() == 0 {
        "project"@
    } else if contains_char(q, '/') {
        q.skip(parent_len(q) + 1)
    } else {
        q
    }
}

proof fn lemma_strip_trailing_index(p: Seq<char>, e: int)
    requires
        0 <= e <= p.len(),
        forall|j: int| e <= j < p.len() ==> p[j] == '/',
        e > 0 ==> p[e - 1] != '/',
    ensures
        strip_trailing_slashes(p) == p.take(e),
    decreases p.len(),
{
    if e == p.len() {
        if p.len() > 0 && p.last() == '/' {
            assert(p[e - 1] != '/');
            assert(false);
        }
        assert(p.take(e) =~= p);
    } else {
        assert(p.last() == '/');
        lemma_strip_trailing_index(p.drop_last(), e);
        assert(p.drop_last().take(e) =~= p.take(e));
    }
}

/// Derives the project's display name from its directory path.
pub fn detect_project_name(project_path: &str) -> (r: String)
    ensures
        r@ == project_name_spec(project_path@),
{
    let n: usize = project_path.unicode_len();
    let mut e: usize = n;
    while e > 0 && project_path.get_char(e - 1) == '/'
        invariant
            0 <= e <= n,
            n == project_path@.len(),
            forall|j: int| e <= j < n ==> project_path@[j] == '/',
        decreases e,
    {
        e = e - 1;
    }
    proof {
        lemma_strip_trailing_index(project_path@, e as int);
    }
    if e == 0 {
        return "project".to_owned();
    }
    let mut j: usize = e;
    while j > 0 && project_path.get_char(j - 1) != '/'
        invariant
            0 <= j <= e,
            e <= project_path@.len(),
            forall|k: int| j <= k < e ==> project_path@[k] != '/',
        decreases j,
    {
        j = j - 1;
    }
    proof {
        let q = project_path@.take(e as int);
        assert forall|k: int| j <= k < q.len() implies q[k] != '/' by {
            assert(q[k] == project_path@[k]);
        }
        if j > 0 {
            assert(q[j - 1] == project_path@[j - 1]);
        }
        crate::paths::lemma_parent_len_index(q, j as int);
        if j > 0 {
            assert(contains_char(q, '/'));
            assert(q.skip(parent_len(q) + 1) =~= project_path@.subrange(j as int, e as int));
        } else {
            assert(!contains_char(q, '/'));
            assert(q =~= project_path@.subrange(0, e as int));
        }
    }
    let name = project_path.substring_char(j, e);
    name.to_owned()
}

/// `s` split at every '\n'.
pub open spec fn split_lines(s: Seq<char>) -> Seq<Seq<char>>
    decreases s.len(),
{
    let i = find_first(s, '\n');
    if 0 <= i < s.len() {
        seq![s.take(i)] + split_lines(s.skip(i + 1))
    } else {
        seq![s]
    }
}

/// What one Procfile line declares: a process name and its command,
/// colon-separated, both trimmed and non-empty; blank lines and comment
/// lines declare nothing.
pub open spec fn procfile_entry(line: Seq<char>) -> Option<(Seq<char>, Seq<char>)> {
    let t = trim_spec(line);
    if t.len() == 0 {
        None
    } else if t[0] == '#' {
        None
    } else {
        let i = find_first(t, ':');
        if i >= t.len() {
            None
        } else {
            let name = trim_spec(t.take(i));
            let cmd = trim_spec(t.skip(i + 1));
            if name.len() == 0 || cmd.len() == 0 {
                None
            } else {
                Some((name, cmd))
            }
        }
    }
}

/// The entries declared by a list of lines, in order.
pub open spec fn procfile_entries(lines: Seq<Seq<char>>) -> Seq<(Seq<char>, Seq<char>)>
    decreases lines.len(),
{
    if lines.len() == 0 {
        Seq::empty()
    } else {
        match procfile_entry(lines[0]) {
            Some(e) => seq![e] + procfile_entries(lines.skip(1)),
            None => procfile_entries(lines.skip(1)),
        }
    }
}

/// The entries declared by a whole Procfile.
pub open spec fn procfile_spec(s: Seq<char>) -> Seq<(Seq<char>, Seq<char>)> {
    procfile_entries(split_lines(s))
}

/// The (name, command) pairs of a list of process configurations.
pub open spec fn config_pairs(v: Seq<ProcessConfig>) -> Seq<(Seq<char>, Seq<char>)> {
    v.map_values(|c: ProcessConfig| (c.name@, c.command@))
}

/// Reads one Procfile line.
fn parse_procfile_line(line: &str) -> (r: Option<(String, String)>)
    ensures
        (r matches Some(e) ==> procfile_entry(line@) == Some((e.0@, e.1@))),
        r is None ==> procfile_entry(line@) is None,
{
    let t = trim_str(line);
    let tn: usize = t.unicode_len();
    if tn == 0 {
        return None;
    }
    if t.get_char(0) == '#' {
        return None;
    }
    let colon = find_char_from(t, 0, ':');
    proof {
        lemma_find_first_unique(t@, ':', colon as int);
    }
    if colon == tn {
        return None;
    }
    let name = trim_str(t.substring_char(0, colon));
    let cmd = trim_str(t.substring_char(colon + 1, tn));
    if name.unicode_len() == 0 || cmd.unicode_len() == 0 {
        return None;
    }
    Some((name.to_owned(), cmd.to_owned()))
}

/// Reads a Procfile: every well-formed "name: command" line becomes one
/// process, declared with `autostart` off and `autorestart` on.
pub fn parse_procfile(contents: &str) -> (r: Vec<ProcessConfig>)
    ensures
        r@.len() == procfile_spec(contents@).len(),
        forall|i: int|
            0 <= i < r@.len() ==> (#[trigger] r@[i]).name@ == procfile_spec(contents@)[i].0 && r@[
                i
            ].command@ == procfile_spec(contents@)[i].1 && r@[i].autostart == false && r@[
                i
            ].autorestart == true,
{
    let n: usize = contents.unicode_len();
    let mut out: Vec<ProcessConfig> = Vec::new();
    let mut pos: usize = 0;
    let mut done: bool = false;
    proof {
        assert(contents@.skip(0) == contents@);
        assert(config_pairs(out@) + procfile_spec(contents@) =~= procfile_spec(contents@));
    }
    while !done
        invariant
            0 <= pos <= n,
            n == contents@.len(),
            !done ==> procfile_spec(contents@) == config_pairs(out@) + procfile_entries(
                split_lines(contents@.skip(pos as int)),
            ),
            done ==> procfile_spec(contents@) == config_pairs(out@),
            forall|i: int|
                0 <= i < out@.len() ==> (#[trigger] out@[i]).autostart == false && out@[
                    i
                ].autorestart == true,
        decreases n - pos + (if done {
            0int
        } else {
            1int
        }),
    {
        let nl = find_char_from(contents, pos, '\n');
        let line = contents.substring_char(pos, nl);
        let ghost rest = contents@.skip(pos as int);
        let ghost lines = split_lines(rest);
        proof {
            assert forall|k: int| 0 <= k < nl - pos implies rest[k] != '\n' by {
                assert(rest[k] == contents@[pos + k]);
            }
            if nl < n {
                assert(rest[nl - pos] == contents@[nl as int]);
            }
            lemma_find_first_unique(rest, '\n', nl - pos);
            if nl < n {
                assert(lines == seq![rest.take(nl - pos)] + split_lines(rest.skip(nl - pos + 1)));
                assert(rest.take(nl - pos) =~= line@);
                assert(rest.skip(nl - pos + 1) =~= contents@.skip(nl + 1));
                assert(lines[0] == line@);
                assert(lines.skip(1) =~= split_lines(contents@.skip(nl + 1)));
            } else {
                assert(lines == seq![rest]);
                assert(rest =~= line@);
                assert(lines[0] == line@);
                assert(lines.skip(1) =~= Seq::<Seq<char>>::empty());
                assert(procfile_entries(lines.skip(1)) =~= Seq::<(Seq<char>, Seq<char>)>::empty());
            }
        }
        let ghost out_pre = out@;
        match parse_procfile_line(line) {
            Some(pair) => {
                let config = ProcessConfig {
                    name: pair.0,
                    command: pair.1,
                    autostart: false,
                    autorestart: true,
                };
                out.push(config);
                proof {
                    assert(config_pairs(out@) =~= config_pairs(out_pre) + seq![
                        (config.name@, config.command@),
                    ]);
                    assert(procfile_entries(lines) == seq![(config.name@, config.command@)]
                        + procfile_entries(lines.skip(1)));
                    assert(config_pairs(out_pre) + procfile_entries(lines) =~= config_pairs(out@)
                        + procfile_entries(lines.skip(1)));
                }
            },
            None => {
                proof {
                    assert(procfile_entries(lines) == procfile_entries(lines.skip(1)));
                }
            },
        }
        if nl == n {
            done = true;
            proof {
                assert(procfile_entries(lines.skip(1)) =~= Seq::<(Seq<char>, Seq<char>)>::empty());
                assert(config_pairs(out@) + Seq::<(Seq<char>, Seq<char>)>::empty() =~= config_pairs(
                    out@,
                ));
            }
        } else {
            pos = nl + 1;
        }
    }
    proof {
        assert forall|i: int| 0 <= i < out@.len() implies (#[trigger] out@[i]).name@
            == procfile_spec(contents@)[i].0 && out@[i].command@ == procfile_spec(contents@)[i].1 by {
            assert(config_pairs(out@)[i] == (out@[i].name@, out@[i].command@));
        }
    }
    out
}

/// The package manager a Node project uses, read off its lock file.
#[derive(Clone, Copy, Debug, PartialEq, Eq, Structural)]
pub enum PackageManager {
    Pnpm,
    Yarn,
    Bun,
    Npm,
}

/// Which manifest script a guessed process runs.
#[derive(Clone, Copy, Debug, PartialEq, Eq, Structural)]
pub enum ScriptKind {
    Dev,
    Start,
}

/// Lock-file priority: pnpm, then yarn, then bun, then the npm default.
pub open spec fn package_manager_spec(pnpm_lock: bool, yarn_lock: bool, bun_lockb: bool)
    -> PackageManager {
    if pnpm_lock {
        PackageManager::Pnpm
    } else if yarn_lock {
        PackageManager::Yarn
    } else if bun_lockb {
        PackageManager::Bun
    } else {
        PackageManager::Npm
    }
}

/// Picks the package manager from the lock files present.
pub fn detect_package_manager(pnpm_lock: bool, yarn_lock: bool, bun_lockb: bool) -> (r:
    PackageManager)
    ensures
        r == package_manager_spec(pnpm_lock, yarn_lock, bun_lockb),
{
    if pnpm_lock {
        PackageManager::Pnpm
    } else if yarn_lock {
        PackageManager::Yarn
    } else if bun_lockb {
        PackageManager::Bun
    } else {
        PackageManager::Npm
    }
}

/// The shell command that runs a manifest script under a package manager.
pub open spec fn node_command_spec(pm: PackageManager, script: ScriptKind) -> Seq<char> {
    match (pm, script) {
        (PackageManager::Yarn, ScriptKind::Dev) => "yarn dev"@,
        (PackageManager::Yarn, ScriptKind::Start) => "yarn start"@,
        (PackageManager::Pnpm, ScriptKind::Dev) => "pnpm dev"@,
        (PackageManager::Pnpm, ScriptKind::Start) => "pnpm start"@,
        (PackageManager::Bun, ScriptKind::Dev) => "bun run dev"@,
        (PackageManager::Bun, ScriptKind::Start) => "bun run start"@,
        (PackageManager::Npm, ScriptKind::Dev) => "npm run dev"@,
        (PackageManager::Npm, ScriptKind::Start) => "npm start"@,
    }
}

/// Builds the shell command that runs a manifest script.
pub fn node_command(pm: PackageManager, script: ScriptKind) -> (r: String)
    ensures
        r@ == node_command_spec(pm, script),
{
    match (pm, script) {
        (PackageManager::Yarn, ScriptKind::Dev) => "yarn dev".to_owned(),
        (PackageManager::Yarn, ScriptKind::Start) => "yarn start".to_owned(),
        (PackageManager::Pnpm, ScriptKind::Dev) => "pnpm dev".to_owned(),
        (PackageManager::Pnpm, ScriptKind::Start) => "pnpm start".to_owned(),
        (PackageManager::Bun, ScriptKind::Dev) => "bun run dev".to_owned(),
        (PackageManager::Bun, ScriptKind::Start) => "bun run start".to_owned(),
        (PackageManager::Npm, ScriptKind::Dev) => "npm run dev".to_owned(),
        (PackageManager::Npm, ScriptKind::Start) => "npm start".to_owned(),
    }
}

/// The name of a manifest script.
pub open spec fn script_name_spec(script: ScriptKind) -> Seq<char> {
    match script {
        ScriptKind::Dev => "dev"@,
        ScriptKind::Start => "start"@,
    }
}

/// The script a guessed process runs: "dev" when the manifest has it,
/// else "start" when the manifest has that, else nothing.
pub fn script_choice(has_dev: bool, has_start: bool) -> (r: Option<ScriptKind>)
    ensures
        has_dev ==> r == Some(ScriptKind::Dev),
        !has_dev && has_start ==> r == Some(ScriptKind::Start),
        !has_dev && !has_start ==> r is None,
{
    if has_dev {
        Some(ScriptKind::Dev)
    } else if has_start {
        Some(ScriptKind::Start)
    } else {
        None
    }
}

/// Whether a manifest text denotes a JSON object whose "scripts" object
/// carries a string-valued entry of this name.
pub open spec fn has_script(manifest: Seq<char>, script: Seq<char>) -> bool {
    match json_tree_of(manifest) {
        Some(t) => match t {
            JsonTree::Obj { entries } => entries.contains_key("scripts"@) && (match entries[
                "scripts"@
            ] {
                JsonTree::Obj { entries: scripts } => scripts.contains_key(script) && scripts[
                    script
                ] is Str,
                _ => false,
            }),
            _ => false,
        },
        None => false,
    }
}

/// Whether the manifest's "scripts" object carries string-valued "dev" and
/// "start" entries.
fn package_json_scripts(contents: &str) -> (r: (bool, bool))
    ensures
        r.0 == has_script(contents@, "dev"@),
        r.1 == has_script(contents@, "start"@),
{
    match json_parse(contents) {
        None => (false, false),
        Some(doc) => match json_get(&doc, "scripts") {
            None => (false, false),
            Some(scripts) => {
                let has_dev = match json_get(scripts, "dev") {
                    Some(v) => json_as_str(v).is_some(),
                    None => false,
                };
                let has_start = match json_get(scripts, "start") {
                    Some(v) => json_as_str(v).is_some(),
                    None => false,
                };
                (has_dev, has_start)
            },
        },
    }
}

/// The placeholder process suggested when nothing could be guessed.
pub open spec fn fallback_process(c: ProcessConfig) -> bool {
    c.name@ == "dev"@ && c.command@ == "echo 'Edit myterm.yml to add processes' && sleep 2"@
        && c.autostart == false && c.autorestart == false
}

fn fallback_processes() -> (r: Vec<ProcessConfig>)
    ensures
        r@.len() == 1,
        fallback_process(r@[0]),
{
    let config = ProcessConfig {
        name: "dev".to_owned(),
        command: "echo 'Edit myterm.yml to add processes' && sleep 2".to_owned(),
        autostart: false,
        autorestart: false,
    };
    let mut v: Vec<ProcessConfig> = Vec::new();
    v.push(config);
    v
}

/// The contents of an `Option<&str>` as character sequences.
pub open spec fn opt_str_view(o: Option<&str>) -> Option<Seq<char>> {
    match o {
        Some(s) => Some(s@),
        None => None,
    }
}

/// The full guessing rule: a Procfile with entries wins outright and yields
/// exactly those entries (autostart off, autorestart on); otherwise a
/// manifest with a string "dev" script — or, failing that, "start" — yields
/// that one script under the lock-file-chosen package manager; otherwise the
/// placeholder process.
pub open spec fn guess_spec_holds(
    procfile: Option<Seq<char>>,
    package_json: Option<Seq<char>>,
    pnpm_lock: bool,
    yarn_lock: bool,
    bun_lockb: bool,
    r: Seq<ProcessConfig>,
) -> bool {
    let entries = match procfile {
        Some(s) => procfile_spec(s),
        None => Seq::empty(),
    };
    if entries.len() > 0 {
        r.len() == entries.len() && (forall|i: int|
            0 <= i < r.len() ==> (#[trigger] r[i]).name@ == entries[i].0 && r[i].command@
                == entries[i].1 && r[i].autostart == false && r[i].autorestart == true)
    } else {
        let has_dev = match package_json {
            Some(s) => has_script(s, "dev"@),
            None => false,
        };
        let has_start = match package_json {
            Some(s) => has_script(s, "start"@),
            None => false,
        };
        if has_dev || has_start {
            let script = if has_dev {
                ScriptKind::Dev
            } else {
                ScriptKind::Start
            };
            r.len() == 1 && r[0].name@ == script_name_spec(script) && r[0].command@
                == node_command_spec(
                package_manager_spec(pnpm_lock, yarn_lock, bun_lockb),
                script,
            ) && r[0].autostart == false && r[0].autorestart == true
        } else {
            r.len() == 1 && fallback_process(r[0])
        }
    }
}

/// Guesses a project's processes; the exact rule is [`guess_spec_holds`]:
/// a Procfile with entries wins outright; otherwise a Node manifest with a
/// "dev" or "start" script yields that one script under the detected
/// package manager; otherwise the placeholder process is suggested.
pub fn guess_processes(
    procfile: Option<&str>,
    package_json: Option<&str>,
    pnpm_lock: bool,
    yarn_lock: bool,
    bun_lockb: bool,
) -> (r: Vec<ProcessConfig>)
    ensures
        r@.len() >= 1,
        guess_spec_holds(
            opt_str_view(procfile),
            opt_str_view(package_json),
            pnpm_lock,
            yarn_lock,
            bun_lockb,
            r@,
        ),
{
    match procfile {
        Some(s) => {
            let parsed = parse_procfile(s);
            if parsed.len() > 0 {
                return parsed;
            }
        },
        None => {},
    }
    let mut has_dev: bool = false;
    let mut has_start: bool = false;
    match package_json {
        Some(pj) => {
            let flags = package_json_scripts(pj);
            has_dev = flags.0;
            has_start = flags.1;
        },
        None => {},
    }
    match script_choice(has_dev, has_start) {
        Some(script) => {
            let pm = detect_package_manager(pnpm_lock, yarn_lock, bun_lockb);
            let command = node_command(pm, script);
            let name: String = match script {
                ScriptKind::Dev => "dev".to_owned(),
                ScriptKind::Start => "start".to_owned(),
            };
            let config = ProcessConfig { name, command, autostart: false, autorestart: true };
            let mut v: Vec<ProcessConfig> = Vec::new();
            v.push(config);
            v
        },
        None => fallback_processes(),
    }
}

/// Whether an optional flag entry of a process mapping denotes a boolean:
/// an absent entry defaults to off, a non-boolean entry is ill-formed.
pub open spec fn flag_field(entries: Map<Seq<char>, YamlTree>, key: Seq<char>) -> Option<bool> {
    if !entries.contains_key(key) {
        Some(false)
    } else {
        match entries[key] {
            YamlTree::Bool { b } => Some(b),
            _ => None,
        }
    }
}

/// What one process mapping declares: required string "name" and "command",
/// optional boolean "autostart" and "autorestart" defaulting to off.
pub open spec fn process_fields(t: YamlTree) -> Option<(Seq<char>, Seq<char>, bool, bool)> {
    match t {
        YamlTree::Obj { entries } => {
            if entries.contains_key("name"@) && entries.contains_key("command"@) {
                match (entries["name"@], entries["command"@]) {
                    (YamlTree::Str { s: n }, YamlTree::Str { s: c }) => {
                        match (flag_field(entries, "autostart"@), flag_field(
                            entries,
                            "autorestart"@,
                        )) {
                            (Some(a), Some(b)) => Some((n, c, a, b)),
                            _ => None,
                        }
                    },
                    _ => None,
                }
            } else {
                None
            }
        },
        _ => None,
    }
}

/// The field tuples of a "processes" sequence; `None` as soon as one entry
/// is not well-formed.
pub open spec fn processes_fields(ts: Seq<YamlTree>) -> Option<
    Seq<(Seq<char>, Seq<char>, bool, bool)>,
>
    decreases ts.len(),
{
    if ts.len() == 0 {
        Some(Seq::empty())
    } else {
        match (process_fields(ts[0]), processes_fields(ts.skip(1))) {
            (Some(h), Some(rest)) => Some(seq![h] + rest),
            _ => None,
        }
    }
}

/// What a configuration text denotes: the project's name and its process
/// field tuples, or `None` when the text is malformed or not of the
/// configuration shape (a mapping with a string "name" and a "processes"
/// sequence of well-formed process mappings).
pub open spec fn project_config_of(s: Seq<char>) -> Option<
    (Seq<char>, Seq<(Seq<char>, Seq<char>, bool, bool)>),
> {
    match yaml_tree_of(s) {
        Some(t) => match t {
            YamlTree::Obj { entries } => {
                if entries.contains_key("name"@) && entries.contains_key("processes"@) {
                    match (entries["name"@], entries["processes"@]) {
                        (YamlTree::Str { s: n }, YamlTree::Arr { elems }) => {
                            match processes_fields(elems) {
                                Some(ps) => Some((n, ps)),
                                None => None,
                            }
                        },
                        _ => None,
                    }
                } else {
                    None
                }
            },
            _ => None,
        },
        None => None,
    }
}

/// The field tuples of a list of process configurations, in order.
pub open spec fn config_tuples(v: Seq<ProcessConfig>) -> Seq<(Seq<char>, Seq<char>, bool, bool)> {
    v.map_values(|c: ProcessConfig| (c.name@, c.command@, c.autostart, c.autorestart))
}

/// The parse outcome a configuration text owes: the denoted name and
/// processes when the text denotes a configuration, the parse error when it
/// does not.
pub open spec fn parse_result_matches(
    contents: Seq<char>,
    r: Result<ProjectConfig, SupervisorError>,
) -> bool {
    match project_config_of(contents) {
        Some(f) => r matches Ok(c) && c.name@ == f.0 && config_tuples(c.processes@) == f.1,
        None => r == Err::<ProjectConfig, SupervisorError>(SupervisorError::ConfigParseError),
    }
}

/// Reads one process off its YAML mapping: "name" and "command" are
/// required strings, "autostart" and "autorestart" optional booleans that
/// default to off.
fn process_from_yaml(item: &serde_yaml::Value) -> (r: Result<ProcessConfig, SupervisorError>)
    ensures
        (process_fields(yaml_view(*item)) matches Some(f) ==> (r matches Ok(c) && c.name@ == f.0
            && c.command@ == f.1 && c.autostart == f.2 && c.autorestart == f.3)),
        process_fields(yaml_view(*item)) is None ==> r == Err::<ProcessConfig, SupervisorError>(
            SupervisorError::ConfigParseError,
        ),
        r is Err ==> r == Err::<ProcessConfig, SupervisorError>(SupervisorError::ConfigParseError),
{
    let name: String = match yaml_get(item, "name") {
        Some(v) => match yaml_as_str(v) {
            Some(s) => s.to_owned(),
            None => {
                return Err(SupervisorError::ConfigParseError);
            },
        },
        None => {
            return Err(SupervisorError::ConfigParseError);
        },
    };
    let command: String = match yaml_get(item, "command") {
        Some(v) => match yaml_as_str(v) {
            Some(s) => s.to_owned(),
            None => {
                return Err(SupervisorError::ConfigParseError);
            },
        },
        None => {
            return Err(SupervisorError::ConfigParseError);
        },
    };
    let autostart: bool = match yaml_get(item, "autostart") {
        Some(v) => match yaml_as_bool(v) {
            Some(b) => b,
            None => {
                return Err(SupervisorError::ConfigParseError);
            },
        },
        None => false,
    };
    let autorestart: bool = match yaml_get(item, "autorestart") {
        Some(v) => match yaml_as_bool(v) {
            Some(b) => b,
            None => {
                return Err(SupervisorError::ConfigParseError);
            },
        },
        None => false,
    };
    proof {
        assert(process_fields(yaml_view(*item)) == Some((name@, command@, autostart, autorestart)));
    }
    Ok(ProcessConfig { name, command, autostart, autorestart })
}

/// Reads a project configuration out of its YAML text: succeeds exactly
/// when the text denotes a configuration, and then returns exactly the
/// denoted name and processes; anything else is a parse error.
pub fn parse_project_config(contents: &str) -> (r: Result<ProjectConfig, SupervisorError>)
    ensures
        parse_result_matches(contents@, r),
        r is Err ==> r == Err::<ProjectConfig, SupervisorError>(SupervisorError::ConfigParseError),
{
    let doc = match yaml_parse(contents) {
        Some(d) => d,
        None => {
            return Err(SupervisorError::ConfigParseError);
        },
    };
    let name_value = match yaml_get(&doc, "name") {
        Some(v) => v,
        None => {
            return Err(SupervisorError::ConfigParseError);
        },
    };
    let name: String = match yaml_as_str(name_value) {
        Some(s) => s.to_owned(),
        None => {
            return Err(SupervisorError::ConfigParseError);
        },
    };
    let items_value = match yaml_get(&doc, "processes") {
        Some(v) => v,
        None => {
            return Err(SupervisorError::ConfigParseError);
        },
    };
    let items = match yaml_as_sequence(items_value) {
        Some(a) => a,
        None => {
            return Err(SupervisorError::ConfigParseError);
        },
    };
    let ghost elems = (match yaml_view(*items_value) {
        YamlTree::Arr { elems } => elems,
        _ => Seq::<YamlTree>::empty(),
    });
    proof {
        assert(project_config_of(contents@) == (match processes_fields(elems) {
            Some(ps) => Some((name@, ps)),
            None => None::<(Seq<char>, Seq<(Seq<char>, Seq<char>, bool, bool)>)>,
        }));
    }
    let n: usize = items.len();
    let mut processes: Vec<ProcessConfig> = Vec::new();
    let mut i: usize = 0;
    proof {
        assert(elems.skip(0) =~= elems);
        assert(config_tuples(processes@) =~= Seq::<(Seq<char>, Seq<char>, bool, bool)>::empty());
        if processes_fields(elems) is Some {
            assert(config_tuples(processes@) + processes_fields(elems).unwrap()
                =~= processes_fields(elems).unwrap());
        }
    }
    while i < n
        invariant
            0 <= i <= n,
            n == items@.len(),
            n == elems.len(),
            forall|j: int| 0 <= j < n ==> yaml_view(#[trigger] items@[j]) == elems[j],
            project_config_of(contents@) == (match processes_fields(elems) {
                Some(ps) => Some((name@, ps)),
                None => None::<(Seq<char>, Seq<(Seq<char>, Seq<char>, bool, bool)>)>,
            }),
            (match processes_fields(elems.skip(i as int)) {
                Some(rest) => processes_fields(elems) == Some(config_tuples(processes@) + rest),
                None => processes_fields(elems) is None,
            }),
        decreases n - i,
    {
        proof {
            assert(elems.skip(i as int)[0] == elems[i as int]);
            assert(elems.skip(i as int).skip(1) =~= elems.skip(i + 1));
        }
        let item = &items[i];
        let ghost processes_pre = processes@;
        match process_from_yaml(item) {
            Ok(c) => {
                processes.push(c);
                proof {
                    let t = (
                        processes@.last().name@,
                        processes@.last().command@,
                        processes@.last().autostart,
                        processes@.last().autorestart,
                    );
                    assert(process_fields(elems[i as int]) == Some(t));
                    assert(config_tuples(processes@) =~= config_tuples(processes_pre) + seq![t]);
                    match processes_fields(elems.skip(i + 1)) {
                        Some(rest2) => {
                            assert(processes_fields(elems.skip(i as int)) == Some(
                                seq![t] + rest2,
                            ));
                            assert(config_tuples(processes_pre) + (seq![t] + rest2)
                                =~= config_tuples(processes@) + rest2);
                        },
                        None => {
                            assert(processes_fields(elems.skip(i as int)) is None);
                        },
                    }
                }
            },
            Err(e) => {
                proof {
                    assert(process_fields(elems[i as int]) is None);
                    assert(processes_fields(elems.skip(i as int)) is None);
                }
                return Err(e);
            },
        }
        i = i + 1;
    }
    proof {
        assert(elems.skip(n as int) =~= Seq::<YamlTree>::empty());
        assert(processes_fields(elems.skip(n as int)) == Some(
            Seq::<(Seq<char>, Seq<char>, bool, bool)>::empty(),
        ));
        assert(config_tuples(processes@) + Seq::<(Seq<char>, Seq<char>, bool, bool)>::empty()
            =~= config_tuples(processes@));
    }
    Ok(ProjectConfig { name, processes })
}

/// Loads the project configuration from whichever candidate file could be
/// read, first match wins: the contents of "myterm.yml" decide the outcome
/// when that file was readable — parse failures there are final, the second
/// candidate is not consulted — else the contents of "myterm.yaml" decide.
/// Fails with `ConfigMissing` exactly when neither was readable. The parse
/// outcome itself is [`parse_result_matches`]: exactly the denoted name and
/// processes on success, `ConfigParseError` otherwise.
pub fn load_project_config(yml_contents: Option<&str>, yaml_contents: Option<&str>) -> (r: Result<
    ProjectConfig,
    SupervisorError,
>)
    ensures
        (yml_contents matches Some(s) ==> parse_result_matches(s@, r)),
        yml_contents is None ==> (yaml_contents matches Some(s) ==> parse_result_matches(s@, r)),
        (r == Err::<ProjectConfig, SupervisorError>(SupervisorError::ConfigMissing)) <==> (
        yml_contents is None && yaml_contents is None),
        r is Err ==> (r == Err::<ProjectConfig, SupervisorError>(SupervisorError::ConfigMissing)
            || r == Err::<ProjectConfig, SupervisorError>(SupervisorError::ConfigParseError)),
{
    match yml_contents {
        Some(s) => parse_project_config(s),
        None => match yaml_contents {
            Some(s) => parse_project_config(s),
            None => Err(SupervisorError::ConfigMissing),
        },
    }
}

/// Initialises a project configuration: refused when a configuration file
/// already exists; otherwise the project name is read off the directory
/// path and the processes are exactly the guessed ones, by the rule of
/// [`guess_spec_holds`].
pub fn init_project_config(
    config_exists: bool,
    project_path: &str,
    procfile: Option<&str>,
    package_json: Option<&str>,
    pnpm_lock: bool,
    yarn_lock: bool,
    bun_lockb: bool,
) -> (r: Result<ProjectConfig, SupervisorError>)
    ensures
        config_exists ==> r == Err::<ProjectConfig, SupervisorError>(SupervisorError::ConfigExists),
        !config_exists ==> (r matches Ok(c) && c.name@ == project_name_spec(project_path@)
            && c.processes@.len() >= 1 && guess_spec_holds(
            opt_str_view(procfile),
            opt_str_view(package_json),
            pnpm_lock,
            yarn_lock,
            bun_lockb,
            c.processes@,
        )),
{
    if config_exists {
        return Err(SupervisorError::ConfigExists);
    }
    let name = detect_project_name(project_path);
    let processes = guess_processes(procfile, package_json, pnpm_lock, yarn_lock, bun_lockb);
    Ok(ProjectConfig { name, processes })
}

} // verus!
