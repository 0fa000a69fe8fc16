//! Where this machine keeps its files, and what it is called.
use crate::config::PLACEHOLDER_NAME;
use crate::text;
use crate::text::trim;
use vstd::prelude::*;

verus! {

/// The family of the operating system.
#[derive(Debug, Clone, Copy, PartialEq, Eq, Structural)]
pub enum Platform {
    Windows,
    MacOs,
    Other,
}

/// The environment variables that say where files belong. `None` = not set.
#[derive(Debug, Clone, PartialEq, Eq)]
pub struct Directories {
    pub appdata: Option<String>,
    pub user_profile: Option<String>,
    pub home: Option<String>,
    pub xdg_config_home: Option<String>,
}

/// What the environment says about the name of this machine. `None` = not set, or not known.
#[derive(Debug, Clone, PartialEq, Eq)]
pub struct HostNames {
    pub computer_name: Option<String>,
    pub hostname: Option<String>,
    pub host: Option<String>,
    /// What the `hostname` command printed.
    pub command_output: Option<String>,
}

/// The value of a variable, or the current directory.
pub open spec fn or_here(value: Option<String>) -> Seq<char> {
    match value {
        Some(v) => v@,
        None => "."@,
    }
}

/// The components of the directory for configuration files.
pub open spec fn config_dir(platform: Platform, dirs: Directories) -> Seq<Seq<char>> {
    match platform {
        Platform::Windows => seq![or_here(dirs.appdata)],
        Platform::MacOs => seq![or_here(dirs.home), "Library/Application Support"@],
        Platform::Other => match dirs.xdg_config_home {
            Some(dir) => seq![dir@],
            None => seq![or_here(dirs.home), ".config"@],
        },
    }
}

/// The components of the directory for the identity of this machine.
pub open spec fn identity_dir(platform: Platform, dirs: Directories) -> Seq<Seq<char>> {
    match platform {
        Platform::Windows => seq![or_here(dirs.appdata), "shareflow"@],
        Platform::MacOs => seq![or_here(dirs.home), "Library/Application Support/shareflow"@],
        Platform::Other => seq!["."@, "shareflow"@],
    }
}

/// The components of the directory for received files.
pub open spec fn downloads_dir(platform: Platform, dirs: Directories) -> Seq<Seq<char>> {
    let home = if platform is Windows {
        dirs.user_profile
    } else {
        dirs.home
    };
    match home {
        Some(dir) => seq![dir@, "Downloads"@, "ShareFlow"@],
        None => seq!["ShareFlow_Downloads"@],
    }
}

/// The components of the path of the crash log.
pub open spec fn crash_log(platform: Platform, dirs: Directories) -> Seq<Seq<char>> {
    match platform {
        Platform::Windows => seq![or_here(dirs.appdata), "shareflow"@, "crash.log"@],
        Platform::MacOs => seq![
            or_here(dirs.home),
            "Library"@,
            "Application Support"@,
            "shareflow"@,
            "crash.log"@,
        ],
        Platform::Other => seq![
            or_here(dirs.home),
            ".local"@,
            "share"@,
            "shareflow"@,
            "crash.log"@,
        ],
    }
}

/// A name that is there and not empty.
pub open spec fn named(name: Option<Seq<char>>) -> bool {
    name is Some && name->0.len() > 0
}

/// The name of this machine.
pub open spec fn spec_hostname(platform: Platform, names: HostNames) -> Seq<char> {
    if platform is Windows {
        match names.computer_name {
            Some(name) => name@,
            None => PLACEHOLDER_NAME@,
        }
    } else if named(text::opt_view(names.hostname)) {
        (names.hostname->0)@
    } else if named(text::opt_view(names.host)) {
        (names.host->0)@
    } else if names.command_output is Some && text::trimmed((names.command_output->0)@).len() > 0 {
        text::trimmed((names.command_output->0)@)
    } else {
        PLACEHOLDER_NAME@
    }
}

fn value_or_here(value: &Option<String>) -> (r: String)
    ensures
        r@ == or_here(*value),
{
    match value {
        Some(v) => v.clone(),
        None => ".".to_string(),
    }
}

fn push(path: &mut Vec<String>, component: &str)
    ensures
        text::views(final(path)@) == text::views(old(path)@).push(component@),
{
    path.push(component.to_string());
    assert(text::views(path@) =~= text::views(old(path)@).push(component@));
}

fn rooted(root: String) -> (r: Vec<String>)
    ensures
        text::views(r@) == seq![root@],
{
    let mut path: Vec<String> = Vec::new();
    path.push(root);
    assert(text::views(path@) =~= seq![root@]);
    path
}

/// The directory for configuration files, as a list of components.
pub fn dirs_config_path(platform: Platform, dirs: &Directories) -> (r: Vec<String>)
    ensures
        text::views(r@) == config_dir(platform, *dirs),
{
    match platform {
        Platform::Windows => rooted(value_or_here(&dirs.appdata)),
        Platform::MacOs => {
            let mut path = rooted(value_or_here(&dirs.home));
            push(&mut path, "Library/Application Support");
            assert(text::views(path@) =~= config_dir(platform, *dirs));
            path
        },
        Platform::Other => match &dirs.xdg_config_home {
            Some(dir) => rooted(dir.clone()),
            None => {
                let mut path = rooted(value_or_here(&dirs.home));
                push(&mut path, ".config");
                assert(text::views(path@) =~= config_dir(platform, *dirs));
                path
            },
        },
    }
}

/// The path of the configuration file, as a list of components.
pub fn config_path(platform: Platform, dirs: &Directories) -> (r: Vec<String>)
    ensures
        text::views(r@) == config_dir(platform, *dirs) + seq!["shareflow"@, "config.json"@],
{
    let mut path = dirs_config_path(platform, dirs);
    push(&mut path, "shareflow");
    push(&mut path, "config.json");
    assert(text::views(path@) =~= config_dir(platform, *dirs) + seq![
        "shareflow"@,
        "config.json"@,
    ]);
    path
}

/// The directory for the certificate and the key of this machine, as a list of components.
pub fn data_dir(platform: Platform, dirs: &Directories) -> (r: Vec<String>)
    ensures
        text::views(r@) == identity_dir(platform, *dirs),
{
    let mut path = match platform {
        Platform::Windows => rooted(value_or_here(&dirs.appdata)),
        Platform::MacOs => rooted(value_or_here(&dirs.home)),
        Platform::Other => rooted(".".to_string()),
    };
    match platform {
        Platform::MacOs => push(&mut path, "Library/Application Support/shareflow"),
        _ => push(&mut path, "shareflow"),
    }
    assert(text::views(path@) =~= identity_dir(platform, *dirs));
    path
}

/// The directory for received files, as a list of components.
pub fn receive_dir(platform: Platform, dirs: &Directories) -> (r: Vec<String>)
    ensures
        text::views(r@) == downloads_dir(platform, *dirs),
{
    let home = match platform {
        Platform::Windows => &dirs.user_profile,
        _ => &dirs.home,
    };
    match home {
        Some(dir) => {
            let mut path = rooted(dir.clone());
            push(&mut path, "Downloads");
            push(&mut path, "ShareFlow");
            assert(text::views(path@) =~= downloads_dir(platform, *dirs));
            path
        },
        None => rooted("ShareFlow_Downloads".to_string()),
    }
}

/// The path of the crash log, as a list of components.
pub fn crash_log_path(platform: Platform, dirs: &Directories) -> (r: Vec<String>)
    ensures
        text::views(r@) == crash_log(platform, *dirs),
{
    let mut path = match platform {
        Platform::Windows => rooted(value_or_here(&dirs.appdata)),
        _ => rooted(value_or_here(&dirs.home)),
    };
    match platform {
        Platform::Windows => {},
        Platform::MacOs => {
            push(&mut path, "Library");
            push(&mut path, "Application Support");
        },
        Platform::Other => {
            push(&mut path, ".local");
            push(&mut path, "share");
        },
    }
    push(&mut path, "shareflow");
    push(&mut path, "crash.log");
    assert(text::views(path@) =~= crash_log(platform, *dirs));
    path
}

fn is_named(name: &Option<String>) -> (r: bool)
    ensures
        r == named(text::opt_view(*name)),
{
    match name {
        Some(n) => n.as_str().unicode_len() > 0,
        None => false,
    }
}

/// Whether the `hostname` command has to be run to find the name of this machine.
pub fn needs_hostname_command(platform: Platform, names: &HostNames) -> (r: bool)
    ensures
        r == (!(platform is Windows) && !named(text::opt_view(names.hostname)) && !named(
            text::opt_view(names.host),
        )),
        !r ==> forall|output: Option<String>| #[trigger]
            spec_hostname(platform, HostNames { command_output: output, ..*names })
                == spec_hostname(platform, *names),
{
    match platform {
        Platform::Windows => false,
        _ => !is_named(&names.hostname) && !is_named(&names.host),
    }
}

/// The name of this machine.
pub fn hostname(platform: Platform, names: &HostNames) -> (r: String)
    ensures
        r@ == spec_hostname(platform, *names),
{
    if let Platform::Windows = platform {
        return match &names.computer_name {
            Some(name) => name.clone(),
            None => PLACEHOLDER_NAME.to_string(),
        };
    }
    if let Some(name) = &names.hostname {
        if name.as_str().unicode_len() > 0 {
            return name.clone();
        }
    }
    if let Some(name) = &names.host {
        if name.as_str().unicode_len() > 0 {
            return name.clone();
        }
    }
    if let Some(output) = &names.command_output {
        let name = trim(output.as_str());
        if name.as_str().unicode_len() > 0 {
            return name;
        }
    }
    PLACEHOLDER_NAME.to_string()
}

/// Files are kept where the platform keeps them: the configuration and the identity under the data
/// directory of applications on Windows and under the library of the user on macOS, received files
/// among the downloads of the user.
pub proof fn lemma_where_files_belong(dirs: Directories, dir: String)
    ensures
        dirs.appdata == Some(dir) ==> {
            &&& config_dir(Platform::Windows, dirs) == seq![dir@]
            &&& identity_dir(Platform::Windows, dirs) == seq![dir@, "shareflow"@]
            &&& crash_log(Platform::Windows, dirs) == seq![dir@, "shareflow"@, "crash.log"@]
        },
        dirs.home == Some(dir) ==> {
            &&& config_dir(Platform::MacOs, dirs) == seq![dir@, "Library/Application Support"@]
            &&& identity_dir(Platform::MacOs, dirs) == seq![
                dir@,
                "Library/Application Support/shareflow"@,
            ]
            &&& downloads_dir(Platform::MacOs, dirs) == seq![dir@, "Downloads"@, "ShareFlow"@]
            &&& downloads_dir(Platform::Other, dirs) == seq![dir@, "Downloads"@, "ShareFlow"@]
            &&& dirs.xdg_config_home is None ==> config_dir(Platform::Other, dirs) == seq![
                dir@,
                ".config"@,
            ]
            &&& crash_log(Platform::MacOs, dirs) == seq![
                dir@,
                "Library"@,
                "Application Support"@,
                "shareflow"@,
                "crash.log"@,
            ]
            &&& crash_log(Platform::Other, dirs) == seq![
                dir@,
                ".local"@,
                "share"@,
                "shareflow"@,
                "crash.log"@,
            ]
        },
        dirs.user_profile == Some(dir) ==> downloads_dir(Platform::Windows, dirs) == seq![
            dir@,
            "Downloads"@,
            "ShareFlow"@,
        ],
        dirs.xdg_config_home == Some(dir) ==> config_dir(Platform::Other, dirs) == seq![dir@],
        identity_dir(Platform::Other, dirs) == seq!["."@, "shareflow"@],
        dirs.user_profile is None ==> downloads_dir(Platform::Windows, dirs) == seq![
            "ShareFlow_Downloads"@,
        ],
        dirs.home is None ==> downloads_dir(Platform::MacOs, dirs) == seq!["ShareFlow_Downloads"@],
        dirs.appdata is None ==> config_dir(Platform::Windows, dirs) == seq!["."@],
{
}

/// A machine is called what its system calls it: on Windows by its computer name, elsewhere by the
/// first of two variables that is set to something, else by what the command prints, without white
/// space around it.
pub proof fn lemma_names(names: HostNames, name: String)
    ensures
        names.computer_name == Some(name) ==> spec_hostname(Platform::Windows, names) == name@,
        names.computer_name is None ==> spec_hostname(Platform::Windows, names) == "Unknown-PC"@,
        names.hostname == Some(name) && name@.len() > 0 ==> spec_hostname(Platform::MacOs, names)
            == name@ && spec_hostname(Platform::Other, names) == name@,
        ({
            let unset = names.hostname is None || (names.hostname->0)@.len() == 0;
            let unset_too = names.host is None || (names.host->0)@.len() == 0;
            &&& unset && names.host == Some(name) && name@.len() > 0 ==> spec_hostname(
                Platform::MacOs,
                names,
            ) == name@ && spec_hostname(Platform::Other, names) == name@
            &&& unset && unset_too && names.command_output == Some(name) && text::trimmed(name@).len()
                > 0 ==> spec_hostname(Platform::MacOs, names) == text::trimmed(name@)
                && spec_hostname(Platform::Other, names) == text::trimmed(name@)
            &&& unset && unset_too && names.command_output is None ==> spec_hostname(
                Platform::MacOs,
                names,
            ) == "Unknown-PC"@ && spec_hostname(Platform::Other, names) == "Unknown-PC"@
        }),
{
}

} // verus!
