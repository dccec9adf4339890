use vstd::prelude::*;

use crate::error::InstallerError;
use crate::plan::{remaining, remaining_records};
use crate::record::{InstalledRecord, PackageRecord};
use crate::session::{actions_view, Action, ActionView, InstallSession, Phase};
use crate::transaction::{
    desired_names_unique, desired_view, diff_ops, installed_names_unique, installed_view, strings_view,
    Transaction, TransactionError,
};

verus! {

/// The number of concurrent filesystem operations allowed when none is set.
pub const DEFAULT_IO_CONCURRENCY_LIMIT: usize = 100;

/// Which kinds of links may be used to place package files in the prefix.
/// `None` leaves the choice to what the filesystem supports.
#[derive(Clone, Copy, Debug, PartialEq, Eq, Structural)]
pub struct LinkOptions {
    pub allow_symbolic_links: Option<bool>,
    pub allow_hard_links: Option<bool>,
    pub allow_ref_links: Option<bool>,
}

impl LinkOptions {
    pub fn new() -> (r: LinkOptions)
        ensures
            r.allow_symbolic_links is None,
            r.allow_hard_links is None,
            r.allow_ref_links is None,
    {
        LinkOptions { allow_symbolic_links: None, allow_hard_links: None, allow_ref_links: None }
    }
}

impl Default for LinkOptions {
    fn default() -> (r: LinkOptions)
        ensures
            r.allow_symbolic_links is None,
            r.allow_hard_links is None,
            r.allow_ref_links is None,
    {
        LinkOptions::new()
    }
}

/// What to do about Apple code signatures of binaries that linking modified.
#[derive(Clone, Copy, Debug, PartialEq, Eq, Structural)]
pub enum AppleCodeSignBehavior {
    /// Do not sign.
    DoNothing,
    /// Sign, and ignore failures.
    Ignore,
    /// Sign, and fail on failures.
    Fail,
}

/// The options handed to the linking of each package.
pub struct InstallOptions {
    pub target_prefix: Option<String>,
    pub platform: String,
    pub apple_codesign_behavior: AppleCodeSignBehavior,
    pub link_options: LinkOptions,
}

/// An installer that can install packages into a prefix. Every setting is
/// optional; unset ones get defaults when the installation runs.
pub struct Installer {
    pub installed: Option<Vec<InstalledRecord>>,
    /// The root directory of the package cache.
    pub package_cache: Option<String>,
    pub execute_link_scripts: bool,
    pub io_concurrency_limit: Option<usize>,
    pub target_platform: Option<String>,
    pub apple_code_sign_behavior: AppleCodeSignBehavior,
    pub alternative_target_prefix: Option<String>,
    pub reinstall_packages: Option<Vec<String>>,
    pub link_options: LinkOptions,
}

impl Default for Installer {
    fn default() -> (r: Installer)
        ensures
            r.installed is None,
            r.package_cache is None,
            !r.execute_link_scripts,
            r.io_concurrency_limit is None,
            r.target_platform is None,
            r.apple_code_sign_behavior == AppleCodeSignBehavior::DoNothing,
            r.alternative_target_prefix is None,
            r.reinstall_packages is None,
    {
        Installer::new()
    }
}

/// The first part of an installation: the transaction, the installed records
/// that it leaves in place, and the session that drives the rest.
pub struct Prepared {
    pub transaction_size: usize,
    pub remaining: Vec<InstalledRecord>,
    pub session: InstallSession,
    pub actions: Vec<Action>,
}

pub open spec fn reinstall_view(r: Option<Vec<String>>) -> Seq<Seq<char>> {
    match r {
        Some(v) => strings_view(v@),
        None => Seq::empty(),
    }
}

impl Installer {
    /// An installer with every setting unset and link scripts disabled.
    pub fn new() -> (r: Installer)
        ensures
            r.installed is None,
            r.package_cache is None,
            !r.execute_link_scripts,
            r.io_concurrency_limit is None,
            r.target_platform is None,
            r.apple_code_sign_behavior == AppleCodeSignBehavior::DoNothing,
            r.alternative_target_prefix is None,
            r.reinstall_packages is None,
            r.link_options == (LinkOptions { allow_symbolic_links: None, allow_hard_links: None, allow_ref_links: None }),
    {
        Installer {
            installed: None,
            package_cache: None,
            execute_link_scripts: false,
            io_concurrency_limit: None,
            target_platform: None,
            apple_code_sign_behavior: AppleCodeSignBehavior::DoNothing,
            alternative_target_prefix: None,
            reinstall_packages: None,
            link_options: LinkOptions::new(),
        }
    }

    /// The bound on concurrent filesystem operations: the one set, or the default.
    pub fn effective_io_concurrency_limit(&self) -> (r: usize)
        ensures
            r == match self.io_concurrency_limit {
                Some(l) => l,
                None => DEFAULT_IO_CONCURRENCY_LIMIT,
            },
    {
        match self.io_concurrency_limit {
            Some(l) => l,
            None => DEFAULT_IO_CONCURRENCY_LIMIT,
        }
    }

    /// The options for linking every package, for the given target platform.
    pub fn base_install_options(&self, platform: String) -> (r: InstallOptions)
        ensures
            r.platform == platform,
            opt_string_eq(r.target_prefix, self.alternative_target_prefix),
            r.apple_codesign_behavior == self.apple_code_sign_behavior,
            r.link_options == self.link_options,
    {
        let target_prefix = match &self.alternative_target_prefix {
            Some(p) => Some(p.clone()),
            None => None,
        };
        InstallOptions {
            target_prefix,
            platform,
            apple_codesign_behavior: self.apple_code_sign_behavior,
            link_options: self.link_options,
        }
    }

    /// Computes the transaction from the `installed` records to the `desired`
    /// ones, the installed records it leaves in place, and starts the session
    /// that applies it. Fails exactly when the transaction cannot be computed.
    pub fn prepare(&self, installed: &Vec<InstalledRecord>, desired: &Vec<PackageRecord>) -> (r: Result<Prepared, InstallerError>)
        ensures
            match r {
                Ok(p) => {
                    let ops = diff_ops(installed_view(installed@), desired_view(desired@), reinstall_view(self.reinstall_packages));
                    &&& installed_names_unique(installed_view(installed@))
                    &&& desired_names_unique(desired_view(desired@))
                    &&& p.session.wf()
                    &&& p.session.transaction@ == ops
                    &&& p.transaction_size == ops.len()
                    &&& installed_view(p.remaining@) == remaining_records(installed_view(installed@), ops)
                    &&& (ops.len() == 0 ==> p.session.phase == Phase::Done
                        && actions_view(p.actions@) == seq![ActionView::Finish])
                },
                Err(InstallerError::FailedToComputeTransaction(TransactionError::DuplicateInstalled)) =>
                    !installed_names_unique(installed_view(installed@)),
                Err(InstallerError::FailedToComputeTransaction(TransactionError::DuplicateDesired)) =>
                    installed_names_unique(installed_view(installed@))
                    && !desired_names_unique(desired_view(desired@)),
                Err(_) => false,
            },
    {
        let empty: Vec<String> = Vec::new();
        let reinstall = match &self.reinstall_packages {
            Some(v) => v,
            None => &empty,
        };
        assert(strings_view(reinstall@) == reinstall_view(self.reinstall_packages)) by {
            if self.reinstall_packages is None {
                assert(strings_view(empty@) =~= Seq::<Seq<char>>::empty());
            }
        }
        match Transaction::from_current_and_desired(installed, desired, reinstall) {
            Ok(transaction) => {
                let left = remaining(installed, &transaction);
                let transaction_size = transaction.operations.len();
                let (session, actions) = InstallSession::start(transaction);
                Ok(Prepared { transaction_size, remaining: left, session, actions })
            },
            Err(e) => Err(InstallerError::FailedToComputeTransaction(e)),
        }
    }
}

impl Installer {
    /// Bounds the number of concurrent filesystem operations of the installation.
    #[must_use]
    pub fn with_io_concurrency_limit(self, limit: usize) -> (r: Installer)
        ensures
            r == (Installer { io_concurrency_limit: Some(limit), ..self }),
    {
        Installer { io_concurrency_limit: Some(limit), ..self }
    }

    /// Bounds the number of concurrent filesystem operations of the installation. Modifies this installer in place.
    pub fn set_io_concurrency_limit(&mut self, limit: usize) -> (r: &mut Installer)
        ensures
            *r == (Installer { io_concurrency_limit: Some(limit), ..*old(self) }),
            *final(self) == *final(r),
    {
        self.io_concurrency_limit = Some(limit);
        self
    }

    /// Sets whether link scripts are run. They are not by default: they can run arbitrary code during the installation.
    #[must_use]
    pub fn with_execute_link_scripts(self, execute: bool) -> (r: Installer)
        ensures
            r == (Installer { execute_link_scripts: execute, ..self }),
    {
        Installer { execute_link_scripts: execute, ..self }
    }

    /// Sets whether link scripts are run. They are not by default: they can run arbitrary code during the installation. Modifies this installer in place.
    pub fn set_execute_link_scripts(&mut self, execute: bool) -> (r: &mut Installer)
        ensures
            *r == (Installer { execute_link_scripts: execute, ..*old(self) }),
            *final(self) == *final(r),
    {
        self.execute_link_scripts = execute;
        self
    }

    /// Sets the root directory of the package cache.
    #[must_use]
    pub fn with_package_cache(self, package_cache: String) -> (r: Installer)
        ensures
            r == (Installer { package_cache: Some(package_cache), ..self }),
    {
        Installer { package_cache: Some(package_cache), ..self }
    }

    /// Sets the root directory of the package cache. Modifies this installer in place.
    pub fn set_package_cache(&mut self, package_cache: String) -> (r: &mut Installer)
        ensures
            *r == (Installer { package_cache: Some(package_cache), ..*old(self) }),
            *final(self) == *final(r),
    {
        self.package_cache = Some(package_cache);
        self
    }

    /// Sets the packages that are installed in the prefix. Where unset, they are read from the prefix.
    #[must_use]
    pub fn with_installed_packages(self, installed: Vec<InstalledRecord>) -> (r: Installer)
        ensures
            r == (Installer { installed: Some(installed), ..self }),
    {
        Installer { installed: Some(installed), ..self }
    }

    /// Sets the packages that are installed in the prefix. Where unset, they are read from the prefix. Modifies this installer in place.
    pub fn set_installed_packages(&mut self, installed: Vec<InstalledRecord>) -> (r: &mut Installer)
        ensures
            *r == (Installer { installed: Some(installed), ..*old(self) }),
            *final(self) == *final(r),
    {
        self.installed = Some(installed);
        self
    }

    /// Sets the names of the packages to reinstall even where they are unchanged.
    #[must_use]
    pub fn with_reinstall_packages(self, reinstall: Vec<String>) -> (r: Installer)
        ensures
            r == (Installer { reinstall_packages: Some(reinstall), ..self }),
    {
        Installer { reinstall_packages: Some(reinstall), ..self }
    }

    /// Sets the names of the packages to reinstall even where they are unchanged. Modifies this installer in place.
    pub fn set_reinstall_packages(&mut self, reinstall: Vec<String>) -> (r: &mut Installer)
        ensures
            *r == (Installer { reinstall_packages: Some(reinstall), ..*old(self) }),
            *final(self) == *final(r),
    {
        self.reinstall_packages = Some(reinstall);
        self
    }

    /// Sets the platform to install for. Where unset, it is the platform of this machine.
    #[must_use]
    pub fn with_target_platform(self, target_platform: String) -> (r: Installer)
        ensures
            r == (Installer { target_platform: Some(target_platform), ..self }),
    {
        Installer { target_platform: Some(target_platform), ..self }
    }

    /// Sets the platform to install for. Where unset, it is the platform of this machine. Modifies this installer in place.
    pub fn set_target_platform(&mut self, target_platform: String) -> (r: &mut Installer)
        ensures
            *r == (Installer { target_platform: Some(target_platform), ..*old(self) }),
            *final(self) == *final(r),
    {
        self.target_platform = Some(target_platform);
        self
    }

    /// Sets how Apple code signatures are handled.
    #[must_use]
    pub fn with_apple_code_signing_behavior(self, behavior: AppleCodeSignBehavior) -> (r: Installer)
        ensures
            r == (Installer { apple_code_sign_behavior: behavior, ..self }),
    {
        Installer { apple_code_sign_behavior: behavior, ..self }
    }

    /// Sets how Apple code signatures are handled. Modifies this installer in place.
    pub fn set_apple_code_signing_behavior(&mut self, behavior: AppleCodeSignBehavior) -> (r: &mut Installer)
        ensures
            *r == (Installer { apple_code_sign_behavior: behavior, ..*old(self) }),
            *final(self) == *final(r),
    {
        self.apple_code_sign_behavior = behavior;
        self
    }

    /// Sets which kinds of links may be used.
    #[must_use]
    pub fn with_link_options(self, options: LinkOptions) -> (r: Installer)
        ensures
            r == (Installer { link_options: options, ..self }),
    {
        Installer { link_options: options, ..self }
    }

    /// Sets which kinds of links may be used. Modifies this installer in place.
    pub fn set_link_options(&mut self, options: LinkOptions) -> (r: &mut Installer)
        ensures
            *r == (Installer { link_options: options, ..*old(self) }),
            *final(self) == *final(r),
    {
        self.link_options = options;
        self
    }

    /// Bounds the number of concurrent filesystem operations of the
    /// installation: the bound is a number of permits.
    #[must_use]
    pub fn with_io_concurrency_semaphore(self, limit: usize) -> (r: Installer)
        ensures
            r == (Installer { io_concurrency_limit: Some(limit), ..self }),
    {
        Installer { io_concurrency_limit: Some(limit), ..self }
    }

    /// Bounds the number of concurrent filesystem operations of the
    /// installation, in place: the bound is a number of permits.
    pub fn set_io_concurrency_semaphore(&mut self, limit: usize) -> (r: &mut Installer)
        ensures
            *r == (Installer { io_concurrency_limit: Some(limit), ..*old(self) }),
            *final(self) == *final(r),
    {
        self.io_concurrency_limit = Some(limit);
        self
    }
}

pub open spec fn opt_string_eq(a: Option<String>, b: Option<String>) -> bool {
    match (a, b) {
        (Some(x), Some(y)) => x@ == y@,
        (None, None) => true,
        _ => false,
    }
}

} // verus!
