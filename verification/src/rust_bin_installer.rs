//! The install workflow as an explicit state machine.
//!
//! One request moves through resolving, downloading, extracting, placing and
//! linking, with a branch into a confirmed from-source build when no asset
//! matched, and an early skip when the requested version is already
//! installed and no reinstall was forced.  Each transition names the one
//! outside action the driver must perform next; performing it and reporting
//! its outcome as the next event is the caller's task.

use vstd::prelude::*;

use crate::execute::InstallRequest;
use crate::fs::{AppDir, FSError, spec_file_type, FileType, get_file_type};
use crate::install::{AppRelease, InstallError, InstallerContext};
use crate::kaleido::Package;
use crate::paths::{path_join, set_extension, spec_join, spec_set_extension};
use crate::rust_src_installer::source_archive_name;
use crate::text::{opt_view, spec_ends_with, str_ends_with};

verus! {

/// Everything one request's transitions depend on.
pub struct InstallEnv {
    pub package: Package,
    pub request: InstallRequest,
    pub app_dir: AppDir,
    pub context: InstallerContext,
    pub exe_ext: String,
}

/// The states of one install request.
pub enum InstallState {
    Resolving,
    Downloading { version: String, asset_name: String, from_source: bool },
    Extracting { version: String, asset_name: String, from_source: bool },
    BuildingFromSource { version: String, src_dir: String },
    Placing { version: String },
    Linking { version: String },
    PromptSourceBuild { version: String, source_url: String },
    /// Terminal: nothing was installed and nothing failed — the version was
    /// already present, or the offered source build was declined.
    Skipped,
    Done { version: String },
    Failed { error: InstallError },
}

/// What the driver reports back after each step.
pub enum InstallEvent {
    /// The release feed answered: the release with its matching assets,
    /// and whether the version directory and its executable already exist.
    Resolved { release: AppRelease, dir_exists: bool, bin_exists: bool },
    ResolveFailed { error: InstallError },
    Downloaded,
    Extracted { folder: Option<String> },
    Built,
    BuildFailed,
    Placed,
    Linked,
    Confirmed { yes: bool },
    StepFailed { error: InstallError },
}

/// The single outside action a transition asks for.
pub enum InstallAction {
    /// Fetch `url` to `dest`; first delete the directory `wipe_dir`, if any.
    Download { url: String, dest: String, wipe_dir: Option<String> },
    /// Create `create_dir`, then unpack the archive into `dest`.
    Extract { archive: String, dest: String, create_dir: String },
    /// Delete `wipe_dir` if any, create `create_dir`, then copy the
    /// executable `from` to `to`.
    CopyBinary { from: String, to: String, create_dir: String, wipe_dir: Option<String> },
    /// Replace the link at `bin_link` (and at `alias_link`, if any) so each
    /// resolves to `target`.
    MakeLinks { bin_link: String, alias_link: Option<String>, target: String },
    /// Ask the operator whether to build from source.
    AskConfirm,
    /// Run the ecosystem's standard release build in `dir`.
    RunBuild { dir: String },
    /// Delete the scratch workspace `dir`.
    CleanupWorkspace { dir: String },
    /// Nothing to perform; the state says how the request ended.
    NoAction,
}

/// The scratch workspace of the home directory.
pub open spec fn spec_tmp_dir(env: InstallEnv) -> Seq<char> {
    spec_join(env.app_dir.home_dir@, "tmp"@)
}

/// `packages/<name>/<version>`.
pub open spec fn spec_package_dir(env: InstallEnv, version: Seq<char>) -> Seq<char> {
    spec_join(spec_join(env.app_dir.packages_dir@, env.package.name@), version)
}

/// The placed executable inside the version directory.
pub open spec fn spec_package_bin(env: InstallEnv, version: Seq<char>) -> Seq<char> {
    spec_set_extension(spec_join(spec_package_dir(env, version), env.package.bin_name@), env.exe_ext@)
}

/// The stable link in the bin directory.
pub open spec fn spec_bin_link(env: InstallEnv) -> Seq<char> {
    spec_set_extension(spec_join(env.app_dir.bin_dir@, env.package.bin_name@), env.exe_ext@)
}

/// The alias link, when the request asks for one.
pub open spec fn spec_alias_link(env: InstallEnv) -> Option<Seq<char>> {
    match env.request.alias {
        Option::Some(a) => Option::Some(
            spec_set_extension(spec_join(env.app_dir.alias_dir@, a@), env.exe_ext@),
        ),
        Option::None => Option::None,
    }
}

/// Where a source archive is unpacked: `tmp/<name>`.
pub open spec fn spec_src_path(env: InstallEnv) -> Seq<char> {
    spec_join(spec_tmp_dir(env), env.package.name@)
}

/// The executable found after extraction: the reported top folder, then the
/// configured sub-path, then the executable name.
pub open spec fn spec_extracted_bin(env: InstallEnv, folder: Option<Seq<char>>) -> Seq<char> {
    let base = match folder {
        Option::Some(f) => spec_join(spec_tmp_dir(env), f),
        Option::None => spec_tmp_dir(env),
    };
    let base2 = match env.package.bin_path {
        Option::Some(bp) => spec_join(base, bp@),
        Option::None => base,
    };
    spec_set_extension(spec_join(base2, env.package.bin_name@), env.exe_ext@)
}

/// The source tree the build runs in: `tmp/<name>`, descended into the
/// reported top folder when there is one.
pub open spec fn spec_src_folder(env: InstallEnv, folder: Option<Seq<char>>) -> Seq<char> {
    match folder {
        Option::Some(f) => spec_join(spec_src_path(env), f),
        Option::None => spec_src_path(env),
    }
}

/// The executable the release build leaves behind.
pub open spec fn spec_built_bin(env: InstallEnv, src_dir: Seq<char>) -> Seq<char> {
    spec_set_extension(
        spec_join(spec_join(spec_join(src_dir, "target"@), "release"@), env.package.bin_name@),
        env.exe_ext@,
    )
}

/// An asset is used as a bare executable when its name already carries the
/// platform's executable extension.
pub open spec fn spec_is_exe_name(env: InstallEnv, name: Seq<char>) -> bool {
    env.exe_ext@.len() > 0 && spec_ends_with(name, seq!['.'] + env.exe_ext@)
}

/// The transition table: what the next state and the requested action must
/// be for each state and event.  Any pairing outside the table fails the
/// request.
pub open spec fn spec_install_step(
    env: InstallEnv,
    state: InstallState,
    event: InstallEvent,
    next: InstallState,
    action: InstallAction,
) -> bool {
    match (state, event) {
        (InstallState::Resolving, InstallEvent::Resolved { release, dir_exists, bin_exists }) => {
            if release.assets@.len() > 0 {
                let asset = release.assets@[0];
                if dir_exists && !env.context.force && bin_exists {
                    next is Skipped && action is NoAction
                } else {
                    &&& next matches InstallState::Downloading { version, asset_name, from_source }
                        && version@ == release.version@ && asset_name@ == asset.name@
                        && from_source == false
                    &&& action matches InstallAction::Download { url, dest, wipe_dir } && url@
                        == asset.download_url@ && dest@ == spec_join(spec_tmp_dir(env), asset.name@)
                        && (if env.context.force && dir_exists {
                        opt_view(wipe_dir) == Option::Some(
                            spec_package_dir(env, release.version@),
                        )
                    } else {
                        opt_view(wipe_dir) is None
                    })
                }
            } else if release.source_url is Some {
                &&& next matches InstallState::PromptSourceBuild { version, source_url }
                    && version@ == release.version@ && Option::Some(source_url@) == opt_view(
                    release.source_url,
                )
                &&& action is AskConfirm
            } else {
                &&& next matches InstallState::Failed { error } && error matches
                    InstallError::GeneralStr(m) && m@ == "cannot find appropriate package to install"@
                &&& action is NoAction
            }
        },
        (InstallState::Resolving, InstallEvent::ResolveFailed { error: e }) => {
            next matches InstallState::Failed { error } && error == e && action is NoAction
        },
        (
            InstallState::Downloading { version, asset_name, from_source },
            InstallEvent::Downloaded,
        ) => {
            if from_source {
                &&& next matches InstallState::Extracting {
                    version: v2,
                    asset_name: n2,
                    from_source: fs2,
                } && v2@ == version@ && n2@ == asset_name@ && fs2 == true
                &&& action matches InstallAction::Extract { archive, dest, create_dir } && archive@
                    == spec_join(spec_tmp_dir(env), asset_name@) && dest@ == spec_src_path(env)
                    && create_dir@ == spec_src_path(env)
            } else if spec_is_exe_name(env, asset_name@) || spec_file_type(asset_name@)
                is Plain {
                &&& next matches InstallState::Placing { version: v2 } && v2@ == version@
                &&& action matches InstallAction::CopyBinary { from, to, create_dir, wipe_dir }
                    && from@ == spec_join(spec_tmp_dir(env), asset_name@) && to@
                    == spec_package_bin(env, version@) && create_dir@ == spec_package_dir(
                    env,
                    version@,
                ) && wipe_dir is None
            } else if spec_file_type(asset_name@) is Compression {
                &&& next matches InstallState::Extracting {
                    version: v2,
                    asset_name: n2,
                    from_source: fs2,
                } && v2@ == version@ && n2@ == asset_name@ && fs2 == false
                &&& action matches InstallAction::Extract { archive, dest, create_dir } && archive@
                    == spec_join(spec_tmp_dir(env), asset_name@) && dest@ == spec_tmp_dir(env)
                    && create_dir@ == spec_package_dir(env, version@)
            } else {
                &&& next matches InstallState::Failed { error } && error matches
                    InstallError::GeneralStr(m) && m@ == "unsupported file type"@
                &&& action is NoAction
            }
        },
        (
            InstallState::Extracting { version, asset_name, from_source },
            InstallEvent::Extracted { folder },
        ) => {
            if from_source {
                &&& next matches InstallState::BuildingFromSource { version: v2, src_dir }
                    && v2@ == version@ && src_dir@ == spec_src_folder(env, opt_view(folder))
                &&& action matches InstallAction::RunBuild { dir } && dir@ == spec_src_folder(
                    env,
                    opt_view(folder),
                )
            } else {
                &&& next matches InstallState::Placing { version: v2 } && v2@ == version@
                &&& action matches InstallAction::CopyBinary { from, to, create_dir, wipe_dir }
                    && from@ == spec_extracted_bin(env, opt_view(folder)) && to@
                    == spec_package_bin(env, version@) && create_dir@ == spec_package_dir(
                    env,
                    version@,
                ) && wipe_dir is None
            }
        },
        (InstallState::BuildingFromSource { version, src_dir }, InstallEvent::Built) => {
            &&& next matches InstallState::Placing { version: v2 } && v2@ == version@
            &&& action matches InstallAction::CopyBinary { from, to, create_dir, wipe_dir }
                && from@ == spec_built_bin(env, src_dir@) && to@ == spec_package_bin(env, version@)
                && create_dir@ == spec_package_dir(env, version@) && opt_view(wipe_dir)
                == Option::Some(spec_package_dir(env, version@))
        },
        (InstallState::BuildingFromSource { version, src_dir }, InstallEvent::BuildFailed) => {
            &&& next matches InstallState::Failed { error } && error matches
                InstallError::GeneralStr(m) && m@ == "failed to build from source code"@
            &&& action is NoAction
        },
        (InstallState::Placing { version }, InstallEvent::Placed) => {
            &&& next matches InstallState::Linking { version: v2 } && v2@ == version@
            &&& action matches InstallAction::MakeLinks { bin_link, alias_link, target }
                && bin_link@ == spec_bin_link(env) && opt_view(alias_link) == spec_alias_link(env)
                && target@ == spec_package_bin(env, version@)
        },
        (InstallState::Linking { version }, InstallEvent::Linked) => {
            &&& next matches InstallState::Done { version: v2 } && v2@ == version@
            &&& action matches InstallAction::CleanupWorkspace { dir } && dir@ == spec_tmp_dir(env)
        },
        (InstallState::PromptSourceBuild { version, source_url }, InstallEvent::Confirmed { yes }) => {
            if yes {
                &&& next matches InstallState::Downloading { version: v2, asset_name, from_source }
                    && v2@ == version@ && asset_name@ == version@ + ".zip"@ && from_source == true
                &&& action matches InstallAction::Download { url, dest, wipe_dir } && url@
                    == source_url@ && dest@ == spec_join(spec_tmp_dir(env), version@ + ".zip"@)
                    && opt_view(wipe_dir) == Option::Some(spec_src_path(env))
            } else {
                next is Skipped && action is NoAction
            }
        },
        (InstallState::Downloading { .. }, InstallEvent::StepFailed { error: e }) => {
            next matches InstallState::Failed { error } && error == e && action is NoAction
        },
        (InstallState::Extracting { .. }, InstallEvent::StepFailed { error: e }) => {
            next matches InstallState::Failed { error } && error == e && action is NoAction
        },
        (InstallState::Placing { .. }, InstallEvent::StepFailed { error: e }) => {
            next matches InstallState::Failed { error } && error == e && action is NoAction
        },
        (InstallState::Linking { .. }, InstallEvent::StepFailed { error: e }) => {
            next matches InstallState::Failed { error } && error == e && action is NoAction
        },
        _ => {
            &&& next matches InstallState::Failed { error } && error matches
                InstallError::GeneralStr(m) && m@ == "unexpected installer event"@
            &&& action is NoAction
        },
    }
}

/// Builds the machine's starting event from what resolution found: a
/// missing release fails the request with the not-found error, and an
/// answered one is handed in together with the version-directory probe.
pub fn resolved_event(release: Option<AppRelease>, dir_exists: bool, bin_exists: bool) -> (r:
    InstallEvent)
    ensures
        match release {
            Option::Some(rel) => r == (InstallEvent::Resolved { release: rel, dir_exists, bin_exists }),
            Option::None => r matches InstallEvent::ResolveFailed { error } && error matches
                InstallError::GeneralStr(m) && m@ == "cannot find appropriate release"@,
        },
{
    match release {
        Some(rel) => InstallEvent::Resolved { release: rel, dir_exists, bin_exists },
        None => InstallEvent::ResolveFailed {
            error: InstallError::GeneralStr("cannot find appropriate release"),
        },
    }
}

/// An exact copy of a layer error.
pub fn clone_fs_error(e: &FSError) -> (r: FSError)
    ensures
        r == *e,
{
    match e {
        FSError::Io(m) => FSError::Io(m.clone()),
        FSError::AppDirError() => FSError::AppDirError(),
        FSError::Zip(m) => FSError::Zip(m.clone()),
        FSError::SevenZ(m) => FSError::SevenZ(m.clone()),
        FSError::LinkError() => FSError::LinkError(),
        FSError::UnsupportedFile(m) => FSError::UnsupportedFile(m),
    }
}

/// An exact copy of an install error.
pub fn clone_install_error(e: &InstallError) -> (r: InstallError)
    ensures
        r == *e,
{
    match e {
        InstallError::Http(m) => InstallError::Http(m.clone()),
        InstallError::FileSystem(m) => InstallError::FileSystem(m.clone()),
        InstallError::General(m) => InstallError::General(m.clone()),
        InstallError::GeneralStr(m) => InstallError::GeneralStr(m),
        InstallError::ToolFs(f) => InstallError::ToolFs(clone_fs_error(f)),
    }
}

/// The installer of prebuilt release binaries; it owns the install state
/// machine.
pub struct RustBinInstaller {}

impl RustBinInstaller {
    pub fn new() -> (r: RustBinInstaller) {
        RustBinInstaller {  }
    }

    /// One transition of the install workflow.
    pub fn install_step(&self, env: &InstallEnv, state: &InstallState, event: &InstallEvent) -> (r:
        (InstallState, InstallAction))
        ensures
            spec_install_step(*env, *state, *event, r.0, r.1),
    {
        let tmp_dir = path_join(env.app_dir.home_dir.as_str(), "tmp");
        match (state, event) {
            (InstallState::Resolving, InstallEvent::Resolved { release, dir_exists, bin_exists }) => {
                if release.assets.len() > 0 {
                    if *dir_exists && !env.context.force && *bin_exists {
                        (InstallState::Skipped, InstallAction::NoAction)
                    } else {
                        let asset = &release.assets[0];
                        let package_dir = self.package_dir(env, release.version.as_str());
                        let wipe_dir = if env.context.force && *dir_exists {
                            Some(package_dir)
                        } else {
                            None
                        };
                        (
                            InstallState::Downloading {
                                version: release.version.clone(),
                                asset_name: asset.name.clone(),
                                from_source: false,
                            },
                            InstallAction::Download {
                                url: asset.download_url.clone(),
                                dest: path_join(tmp_dir.as_str(), asset.name.as_str()),
                                wipe_dir,
                            },
                        )
                    }
                } else {
                    match &release.source_url {
                        Some(u) => (
                            InstallState::PromptSourceBuild {
                                version: release.version.clone(),
                                source_url: u.clone(),
                            },
                            InstallAction::AskConfirm,
                        ),
                        None => (
                            InstallState::Failed {
                                error: InstallError::GeneralStr(
                                    "cannot find appropriate package to install",
                                ),
                            },
                            InstallAction::NoAction,
                        ),
                    }
                }
            },
            (InstallState::Resolving, InstallEvent::ResolveFailed { error }) => (
                InstallState::Failed { error: clone_install_error(error) },
                InstallAction::NoAction,
            ),
            (
                InstallState::Downloading { version, asset_name, from_source },
                InstallEvent::Downloaded,
            ) => {
                let archive = path_join(tmp_dir.as_str(), asset_name.as_str());
                if *from_source {
                    let src_path = path_join(tmp_dir.as_str(), env.package.name.as_str());
                    let dest = path_join(tmp_dir.as_str(), env.package.name.as_str());
                    (
                        InstallState::Extracting {
                            version: version.clone(),
                            asset_name: asset_name.clone(),
                            from_source: true,
                        },
                        InstallAction::Extract { archive, dest, create_dir: src_path },
                    )
                } else if self.is_exe_name(env, asset_name.as_str()) || matches!(
                    get_file_type(asset_name.as_str()),
                    FileType::Plain
                ) {
                    (
                        InstallState::Placing { version: version.clone() },
                        InstallAction::CopyBinary {
                            from: archive,
                            to: self.package_bin(env, version.as_str()),
                            create_dir: self.package_dir(env, version.as_str()),
                            wipe_dir: None,
                        },
                    )
                } else if matches!(get_file_type(asset_name.as_str()), FileType::Compression) {
                    (
                        InstallState::Extracting {
                            version: version.clone(),
                            asset_name: asset_name.clone(),
                            from_source: false,
                        },
                        InstallAction::Extract {
                            archive,
                            dest: tmp_dir,
                            create_dir: self.package_dir(env, version.as_str()),
                        },
                    )
                } else {
                    (
                        InstallState::Failed {
                            error: InstallError::GeneralStr("unsupported file type"),
                        },
                        InstallAction::NoAction,
                    )
                }
            },
            (
                InstallState::Extracting { version, asset_name, from_source },
                InstallEvent::Extracted { folder },
            ) => {
                if *from_source {
                    let src_path = path_join(tmp_dir.as_str(), env.package.name.as_str());
                    let src_folder = match folder {
                        Some(f) => path_join(src_path.as_str(), f.as_str()),
                        None => src_path,
                    };
                    (
                        InstallState::BuildingFromSource {
                            version: version.clone(),
                            src_dir: src_folder.clone(),
                        },
                        InstallAction::RunBuild { dir: src_folder },
                    )
                } else {
                    let base = match folder {
                        Some(f) => path_join(tmp_dir.as_str(), f.as_str()),
                        None => tmp_dir,
                    };
                    let base2 = match &env.package.bin_path {
                        Some(bp) => path_join(base.as_str(), bp.as_str()),
                        None => base,
                    };
                    let from = set_extension(
                        path_join(base2.as_str(), env.package.bin_name.as_str()).as_str(),
                        env.exe_ext.as_str(),
                    );
                    (
                        InstallState::Placing { version: version.clone() },
                        InstallAction::CopyBinary {
                            from,
                            to: self.package_bin(env, version.as_str()),
                            create_dir: self.package_dir(env, version.as_str()),
                            wipe_dir: None,
                        },
                    )
                }
            },
            (InstallState::BuildingFromSource { version, src_dir }, InstallEvent::Built) => {
                let from = set_extension(
                    path_join(
                        path_join(path_join(src_dir.as_str(), "target").as_str(), "release").as_str(),
                        env.package.bin_name.as_str(),
                    ).as_str(),
                    env.exe_ext.as_str(),
                );
                (
                    InstallState::Placing { version: version.clone() },
                    InstallAction::CopyBinary {
                        from,
                        to: self.package_bin(env, version.as_str()),
                        create_dir: self.package_dir(env, version.as_str()),
                        wipe_dir: Some(self.package_dir(env, version.as_str())),
                    },
                )
            },
            (InstallState::BuildingFromSource { .. }, InstallEvent::BuildFailed) => (
                InstallState::Failed {
                    error: InstallError::GeneralStr("failed to build from source code"),
                },
                InstallAction::NoAction,
            ),
            (InstallState::Placing { version }, InstallEvent::Placed) => {
                let bin_link = set_extension(
                    path_join(env.app_dir.bin_dir.as_str(), env.package.bin_name.as_str()).as_str(),
                    env.exe_ext.as_str(),
                );
                let alias_link = match &env.request.alias {
                    Some(a) => Some(
                        set_extension(
                            path_join(env.app_dir.alias_dir.as_str(), a.as_str()).as_str(),
                            env.exe_ext.as_str(),
                        ),
                    ),
                    None => None,
                };
                (
                    InstallState::Linking { version: version.clone() },
                    InstallAction::MakeLinks {
                        bin_link,
                        alias_link,
                        target: self.package_bin(env, version.as_str()),
                    },
                )
            },
            (InstallState::Linking { version }, InstallEvent::Linked) => (
                InstallState::Done { version: version.clone() },
                InstallAction::CleanupWorkspace { dir: tmp_dir },
            ),
            (
                InstallState::PromptSourceBuild { version, source_url },
                InstallEvent::Confirmed { yes },
            ) => {
                if *yes {
                    let file_name = source_archive_name(version.as_str());
                    let src_path = path_join(tmp_dir.as_str(), env.package.name.as_str());
                    (
                        InstallState::Downloading {
                            version: version.clone(),
                            asset_name: file_name.clone(),
                            from_source: true,
                        },
                        InstallAction::Download {
                            url: source_url.clone(),
                            dest: path_join(tmp_dir.as_str(), file_name.as_str()),
                            wipe_dir: Some(src_path),
                        },
                    )
                } else {
                    (InstallState::Skipped, InstallAction::NoAction)
                }
            },
            (InstallState::Downloading { .. }, InstallEvent::StepFailed { error }) => (
                InstallState::Failed { error: clone_install_error(error) },
                InstallAction::NoAction,
            ),
            (InstallState::Extracting { .. }, InstallEvent::StepFailed { error }) => (
                InstallState::Failed { error: clone_install_error(error) },
                InstallAction::NoAction,
            ),
            (InstallState::Placing { .. }, InstallEvent::StepFailed { error }) => (
                InstallState::Failed { error: clone_install_error(error) },
                InstallAction::NoAction,
            ),
            (InstallState::Linking { .. }, InstallEvent::StepFailed { error }) => (
                InstallState::Failed { error: clone_install_error(error) },
                InstallAction::NoAction,
            ),
            _ => (
                InstallState::Failed {
                    error: InstallError::GeneralStr("unexpected installer event"),
                },
                InstallAction::NoAction,
            ),
        }
    }

    fn package_dir(&self, env: &InstallEnv, version: &str) -> (r: String)
        ensures
            r@ == spec_package_dir(*env, version@),
    {
        path_join(
            path_join(env.app_dir.packages_dir.as_str(), env.package.name.as_str()).as_str(),
            version,
        )
    }

    fn package_bin(&self, env: &InstallEnv, version: &str) -> (r: String)
        ensures
            r@ == spec_package_bin(*env, version@),
    {
        let dir = self.package_dir(env, version);
        set_extension(
            path_join(dir.as_str(), env.package.bin_name.as_str()).as_str(),
            env.exe_ext.as_str(),
        )
    }

    fn is_exe_name(&self, env: &InstallEnv, name: &str) -> (r: bool)
        ensures
            r == spec_is_exe_name(*env, name@),
    {
        if env.exe_ext.as_str().unicode_len() == 0 {
            return false;
        }
        let mut suffix = ".".to_owned();
        suffix.append(env.exe_ext.as_str());
        proof {
            reveal_strlit(".");
            assert(suffix@ =~= seq!['.'] + env.exe_ext@);
        }
        str_ends_with(name, suffix.as_str())
    }
}

/// Skip-if-installed: when the requested version is already present and no
/// reinstall was forced, the request ends skipped and nothing is downloaded;
/// with force, the next step downloads after wiping the version directory.
pub proof fn lemma_skip_when_installed(
    env: InstallEnv,
    release: AppRelease,
    next: InstallState,
    action: InstallAction,
)
    requires
        release.assets@.len() > 0,
        spec_install_step(
            env,
            InstallState::Resolving,
            InstallEvent::Resolved { release, dir_exists: true, bin_exists: true },
            next,
            action,
        ),
    ensures
        !env.context.force ==> next is Skipped && action is NoAction,
        env.context.force ==> next is Downloading && (action matches InstallAction::Download {
            wipe_dir,
            ..
        } && opt_view(wipe_dir) == Option::Some(spec_package_dir(env, release.version@))),
{
}

} // verus!
