//! The Linux file-manager integration's files: where each one goes under
//! the user's XDG data home, and what it holds once the app's executable
//! path is quoted into its template.
use crate::integration::{join, join_path};
use crate::text::{chars_of, replace_all, replace_all_chars, string_from_chars};
use vstd::prelude::*;

verus! {

/// The directories the integration files are installed into.
#[derive(Clone, Debug, PartialEq, Eq)]
pub struct IntegrationPaths {
    /// `<data home>/applications`: the `.desktop` MIME association.
    pub applications_dir: String,
    /// `<data home>/nautilus/scripts`.
    pub nautilus_scripts_dir: String,
    /// `<data home>/nemo/actions`.
    pub nemo_actions_dir: String,
    /// `<data home>/kio/servicemenus`: the Dolphin service menu.
    pub kde_servicemenus_dir: String,
}

impl IntegrationPaths {
    /// The integration directories under the XDG data home `data_home`.
    pub fn under_data_home(data_home: &str) -> (r: Self)
        ensures
            r.applications_dir@ == join_path(data_home@, "applications"@),
            r.nautilus_scripts_dir@ == join_path(data_home@, "nautilus/scripts"@),
            r.nemo_actions_dir@ == join_path(data_home@, "nemo/actions"@),
            r.kde_servicemenus_dir@ == join_path(data_home@, "kio/servicemenus"@),
    {
        IntegrationPaths {
            applications_dir: join(data_home, "applications"),
            nautilus_scripts_dir: join(data_home, "nautilus/scripts"),
            nemo_actions_dir: join(data_home, "nemo/actions"),
            kde_servicemenus_dir: join(data_home, "kio/servicemenus"),
        }
    }

    /// The `.desktop` entry, whose presence means the integration is installed.
    pub fn desktop_file(&self) -> (r: String)
        ensures
            r@ == join_path(self.applications_dir@, "satsuma.desktop"@),
    {
        join(self.applications_dir.as_str(), "satsuma.desktop")
    }

    /// The Nautilus "convert" script.
    pub fn nautilus_convert_script(&self) -> (r: String)
        ensures
            r@ == join_path(self.nautilus_scripts_dir@, "Convert with Satsuma"@),
    {
        join(self.nautilus_scripts_dir.as_str(), "Convert with Satsuma")
    }

    /// The Nautilus "tools" script.
    pub fn nautilus_tools_script(&self) -> (r: String)
        ensures
            r@ == join_path(self.nautilus_scripts_dir@, "Satsuma Tools"@),
    {
        join(self.nautilus_scripts_dir.as_str(), "Satsuma Tools")
    }

    /// The Nemo "convert" action.
    pub fn nemo_convert_action(&self) -> (r: String)
        ensures
            r@ == join_path(self.nemo_actions_dir@, "satsuma-convert.nemo_action"@),
    {
        join(self.nemo_actions_dir.as_str(), "satsuma-convert.nemo_action")
    }

    /// The Nemo "tools" action.
    pub fn nemo_tools_action(&self) -> (r: String)
        ensures
            r@ == join_path(self.nemo_actions_dir@, "satsuma-tools.nemo_action"@),
    {
        join(self.nemo_actions_dir.as_str(), "satsuma-tools.nemo_action")
    }

    /// The Dolphin service menu.
    pub fn kde_service_menu(&self) -> (r: String)
        ensures
            r@ == join_path(self.kde_servicemenus_dir@, "satsuma.desktop"@),
    {
        join(self.kde_servicemenus_dir.as_str(), "satsuma.desktop")
    }
}

/// One character of a Desktop Entry `Exec=` value, escaped: `\`, `"`, `$`
/// and a backtick get a backslash in front.
pub open spec fn desktop_escape_char(c: char) -> Seq<char> {
    if c == '\\' || c == '"' || c == '$' || c == '`' {
        seq!['\\', c]
    } else {
        seq![c]
    }
}

/// `s` with every character escaped for a double-quoted Desktop Entry value.
pub open spec fn desktop_escape(s: Seq<char>) -> Seq<char>
    decreases s.len(),
{
    if s.len() == 0 {
        Seq::empty()
    } else {
        desktop_escape(s.drop_last()) + desktop_escape_char(s.last())
    }
}

/// Quotes a value for a Desktop Entry `Exec=` field: double quotes around
/// it, with the characters the specification requires escaped.
pub fn desktop_quote(value: &str) -> (r: String)
    ensures
        r@ == seq!['"'] + desktop_escape(value@) + seq!['"'],
{
    let cs = chars_of(value);
    let mut out: Vec<char> = vec!['"'];
    for i in 0..cs.len()
        invariant
            out@ == seq!['"'] + desktop_escape(cs@.take(i as int)),
    {
        proof {
            assert(cs@.take(i + 1).drop_last() =~= cs@.take(i as int));
        }
        let c = cs[i];
        if c == '\\' || c == '"' || c == '$' || c == '`' {
            out.push('\\');
        }
        out.push(c);
        proof {
            assert(out@ =~= seq!['"'] + desktop_escape(cs@.take(i + 1)));
        }
    }
    proof {
        assert(cs@.take(cs@.len() as int) =~= value@);
    }
    out.push('"');
    string_from_chars(&out)
}

/// One character of a single-quoted `sh` word: a quote becomes `'\''`.
pub open spec fn shell_escape_char(c: char) -> Seq<char> {
    if c == '\'' {
        seq!['\'', '\\', '\'', '\'']
    } else {
        seq![c]
    }
}

/// `s` with every single quote escaped for a single-quoted `sh` word.
pub open spec fn shell_escape(s: Seq<char>) -> Seq<char>
    decreases s.len(),
{
    if s.len() == 0 {
        Seq::empty()
    } else {
        shell_escape(s.drop_last()) + shell_escape_char(s.last())
    }
}

/// Quotes a value for a POSIX `sh` script: single quotes around it, each
/// embedded single quote written `'\''`.
pub fn shell_quote(value: &str) -> (r: String)
    ensures
        r@ == seq!['\''] + shell_escape(value@) + seq!['\''],
{
    let cs = chars_of(value);
    let mut out: Vec<char> = vec!['\''];
    for i in 0..cs.len()
        invariant
            out@ == seq!['\''] + shell_escape(cs@.take(i as int)),
    {
        proof {
            assert(cs@.take(i + 1).drop_last() =~= cs@.take(i as int));
        }
        let c = cs[i];
        if c == '\'' {
            out.push('\'');
            out.push('\\');
            out.push('\'');
            out.push('\'');
        } else {
            out.push(c);
        }
        proof {
            assert(out@ =~= seq!['\''] + shell_escape(cs@.take(i + 1)));
        }
    }
    proof {
        assert(cs@.take(cs@.len() as int) =~= value@);
    }
    out.push('\'');
    string_from_chars(&out)
}

/// The placeholder the integration templates hold for the executable.
pub open spec fn exe_placeholder() -> Seq<char> {
    "@SATSUMA_EXE@"@
}

/// Fills an integration template: every `@SATSUMA_EXE@` becomes `exe`
/// (already quoted for the file's syntax).
pub fn fill_template(template: &str, exe: &str) -> (r: String)
    ensures
        r@ == replace_all(template@, exe_placeholder(), exe@),
{
    let s = chars_of(template);
    let pat = chars_of("@SATSUMA_EXE@");
    let rep = chars_of(exe);
    proof {
        reveal_strlit("@SATSUMA_EXE@");
    }
    let out = replace_all_chars(&s, &pat, &rep);
    string_from_chars(&out)
}

/// The six integration file templates, as shipped with the app.
pub struct IntegrationTemplates {
    /// The `.desktop` entry.
    pub desktop_entry: String,
    /// The Nautilus "convert" script.
    pub nautilus_convert_script: String,
    /// The Nautilus "tools" script.
    pub nautilus_tools_script: String,
    /// The Nemo "convert" action.
    pub nemo_convert_action: String,
    /// The Nemo "tools" action.
    pub nemo_tools_action: String,
    /// The Dolphin service menu.
    pub kde_service_menu: String,
}

/// One file the integration installs: where, what, and whether it must be
/// executable.
pub struct IntegrationFile {
    /// The file's path.
    pub path: String,
    /// The file's contents.
    pub contents: String,
    /// Whether the file gets the executable bit (the Nautilus scripts).
    pub executable: bool,
}

/// The paths of the files installing the integration writes, in order.
pub open spec fn installed_paths(p: IntegrationPaths) -> Seq<Seq<char>> {
    seq![
        join_path(p.applications_dir@, "satsuma.desktop"@),
        join_path(p.nautilus_scripts_dir@, "Convert with Satsuma"@),
        join_path(p.nautilus_scripts_dir@, "Satsuma Tools"@),
        join_path(p.nemo_actions_dir@, "satsuma-convert.nemo_action"@),
        join_path(p.nemo_actions_dir@, "satsuma-tools.nemo_action"@),
        join_path(p.kde_servicemenus_dir@, "satsuma.desktop"@),
    ]
}

/// The paths uninstalling the integration removes, in order.
pub open spec fn removed_paths(p: IntegrationPaths) -> Seq<Seq<char>> {
    seq![
        join_path(p.applications_dir@, "satsuma.desktop"@),
        join_path(p.nautilus_scripts_dir@, "Convert with Satsuma"@),
        join_path(p.nautilus_scripts_dir@, "Satsuma Tools"@),
        join_path(p.nemo_actions_dir@, "satsuma-convert.nemo_action"@),
        join_path(p.nemo_actions_dir@, "satsuma-tools.nemo_action"@),
        join_path(p.kde_servicemenus_dir@, "satsuma.desktop"@),
    ]
}

/// Uninstalling removes exactly the files installing wrote, and the
/// integration counts as installed by the first of them.
pub proof fn lemma_uninstall_removes_what_install_wrote(p: IntegrationPaths)
    ensures
        removed_paths(p) == installed_paths(p),
        installed_paths(p)[0] == join_path(p.applications_dir@, "satsuma.desktop"@),
{
}

/// The files installing the integration writes, in order, with `exe_path`
/// baked in as the command each one runs: double-quoted (Desktop Entry
/// syntax) in the `.desktop`, Nemo and Dolphin files, single-quoted (`sh`
/// syntax) in the Nautilus scripts, which are the executable ones.
pub fn install_files(paths: &IntegrationPaths, templates: &IntegrationTemplates, exe_path: &str) -> (r: Vec<
    IntegrationFile,
>)
    ensures
        r@.len() == 6,
        r@.map_values(|f: IntegrationFile| f.path@) == installed_paths(*paths),
        r@[0].path@ == join_path(paths.applications_dir@, "satsuma.desktop"@),
        r@[0].contents@ == replace_all(templates.desktop_entry@, exe_placeholder(), seq!['"'] + desktop_escape(exe_path@) + seq!['"']),
        !r@[0].executable,
        r@[1].path@ == join_path(paths.nautilus_scripts_dir@, "Convert with Satsuma"@),
        r@[1].contents@ == replace_all(templates.nautilus_convert_script@, exe_placeholder(), seq!['\''] + shell_escape(exe_path@) + seq!['\'']),
        r@[1].executable,
        r@[2].path@ == join_path(paths.nautilus_scripts_dir@, "Satsuma Tools"@),
        r@[2].contents@ == replace_all(templates.nautilus_tools_script@, exe_placeholder(), seq!['\''] + shell_escape(exe_path@) + seq!['\'']),
        r@[2].executable,
        r@[3].path@ == join_path(paths.nemo_actions_dir@, "satsuma-convert.nemo_action"@),
        r@[3].contents@ == replace_all(templates.nemo_convert_action@, exe_placeholder(), seq!['"'] + desktop_escape(exe_path@) + seq!['"']),
        !r@[3].executable,
        r@[4].path@ == join_path(paths.nemo_actions_dir@, "satsuma-tools.nemo_action"@),
        r@[4].contents@ == replace_all(templates.nemo_tools_action@, exe_placeholder(), seq!['"'] + desktop_escape(exe_path@) + seq!['"']),
        !r@[4].executable,
        r@[5].path@ == join_path(paths.kde_servicemenus_dir@, "satsuma.desktop"@),
        r@[5].contents@ == replace_all(templates.kde_service_menu@, exe_placeholder(), seq!['"'] + desktop_escape(exe_path@) + seq!['"']),
        !r@[5].executable,
{
    let desktop_exec = desktop_quote(exe_path);
    let shell_exec = shell_quote(exe_path);
    let mut r: Vec<IntegrationFile> = Vec::new();
    r.push(IntegrationFile {
        path: paths.desktop_file(),
        contents: fill_template(templates.desktop_entry.as_str(), desktop_exec.as_str()),
        executable: false,
    });
    r.push(IntegrationFile {
        path: paths.nautilus_convert_script(),
        contents: fill_template(templates.nautilus_convert_script.as_str(), shell_exec.as_str()),
        executable: true,
    });
    r.push(IntegrationFile {
        path: paths.nautilus_tools_script(),
        contents: fill_template(templates.nautilus_tools_script.as_str(), shell_exec.as_str()),
        executable: true,
    });
    r.push(IntegrationFile {
        path: paths.nemo_convert_action(),
        contents: fill_template(templates.nemo_convert_action.as_str(), desktop_exec.as_str()),
        executable: false,
    });
    r.push(IntegrationFile {
        path: paths.nemo_tools_action(),
        contents: fill_template(templates.nemo_tools_action.as_str(), desktop_exec.as_str()),
        executable: false,
    });
    r.push(IntegrationFile {
        path: paths.kde_service_menu(),
        contents: fill_template(templates.kde_service_menu.as_str(), desktop_exec.as_str()),
        executable: false,
    });
    r
}

/// The files uninstalling the integration removes, in order.
pub fn uninstall_files(paths: &IntegrationPaths) -> (r: Vec<String>)
    ensures
        r@.len() == 6,
        crate::convert::string_views(r@) == removed_paths(*paths),
        r@[0]@ == join_path(paths.applications_dir@, "satsuma.desktop"@),
        r@[1]@ == join_path(paths.nautilus_scripts_dir@, "Convert with Satsuma"@),
        r@[2]@ == join_path(paths.nautilus_scripts_dir@, "Satsuma Tools"@),
        r@[3]@ == join_path(paths.nemo_actions_dir@, "satsuma-convert.nemo_action"@),
        r@[4]@ == join_path(paths.nemo_actions_dir@, "satsuma-tools.nemo_action"@),
        r@[5]@ == join_path(paths.kde_servicemenus_dir@, "satsuma.desktop"@),
{
    let mut r: Vec<String> = Vec::new();
    r.push(paths.desktop_file());
    r.push(paths.nautilus_convert_script());
    r.push(paths.nautilus_tools_script());
    r.push(paths.nemo_convert_action());
    r.push(paths.nemo_tools_action());
    r.push(paths.kde_service_menu());
    r
}

} // verus!
