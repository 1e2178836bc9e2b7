//! Where the vault lives on disk, and the rules for reading it back.
//!
//! Paths are lists of components, joined by the application that performs
//! the file operations.

use vstd::prelude::*;

use crate::types::{AppError, ErrorView, OtpApp};

verus! {

/// The vault directory's name inside the base directory.
pub open spec fn data_dir_name() -> Seq<char> {
    ".plaxo-otp"@
}

/// The encrypted apps file.
pub open spec fn apps_file_name() -> Seq<char> {
    "apps.enc"@
}

/// The encrypted Google authorization file.
pub open spec fn google_auth_file_name() -> Seq<char> {
    "google_auth.enc"@
}

/// A list of path components, by views.
pub open spec fn path_view(p: Seq<String>) -> Seq<Seq<char>> {
    p.map_values(|c: String| c@)
}

/// Where the vault is stored.
pub struct Storage {
    /// Directory holding the vault. `None` means the real per-user location.
    ///
    /// Tests must override this: without it they would read and write the
    /// developer's own vault.
    root: Option<String>,
}

impl View for Storage {
    type V = Option<Seq<char>>;

    closed spec fn view(&self) -> Option<Seq<char>> {
        crate::types::opt_string(self.root)
    }
}

/// The base directory: the configured root, else the home directory, else
/// the working directory.
pub open spec fn base_dir_of(root: Option<Seq<char>>, home: Option<Seq<char>>, cwd: Option<Seq<char>>) -> Option<Seq<char>> {
    match root {
        Some(r) => Some(r),
        None => match home {
            Some(h) => Some(h),
            None => cwd,
        },
    }
}

impl Storage {
    /// Storage at the real per-user location.
    pub fn new() -> (r: Storage)
        ensures
            r@ is None,
    {
        Storage { root: None }
    }

    /// Storage rooted at an explicit directory, for tests.
    pub fn with_root(root: String) -> (r: Storage)
        ensures
            r@ == Some(root@),
    {
        Storage { root: Some(root) }
    }

    /// The base directory, given the user's home and working directories as
    /// the system reports them.
    pub fn base_dir(&self, home: Option<String>, cwd: Option<String>) -> (r: Result<String, AppError>)
        ensures
            base_dir_of(self@, crate::types::opt_string(home), crate::types::opt_string(cwd)) matches Some(
                b,
            ) ==> (r matches Ok(x) && x@ == b),
            base_dir_of(self@, crate::types::opt_string(home), crate::types::opt_string(cwd))
                is None ==> (r matches Err(e) && e@ == ErrorView::Io(
                "Could not determine home directory"@,
            )),
    {
        match &self.root {
            Some(root) => Ok(root.clone()),
            None => match home {
                Some(h) => Ok(h),
                None => match cwd {
                    Some(c) => Ok(c),
                    None => Err(AppError::Io(String::from_str("Could not determine home directory"))),
                },
            },
        }
    }

    /// The vault directory: the base directory, then `.plaxo-otp`.
    pub fn data_dir(&self, home: Option<String>, cwd: Option<String>) -> (r: Result<Vec<String>, AppError>)
        ensures
            base_dir_of(self@, crate::types::opt_string(home), crate::types::opt_string(cwd)) matches Some(
                b,
            ) ==> (r matches Ok(p) && path_view(p@) == seq![b, data_dir_name()]),
            base_dir_of(self@, crate::types::opt_string(home), crate::types::opt_string(cwd))
                is None ==> (r matches Err(e) && e@ == ErrorView::Io(
                "Could not determine home directory"@,
            )),
    {
        let base = self.base_dir(home, cwd)?;
        let mut p: Vec<String> = Vec::new();
        p.push(base);
        p.push(String::from_str(".plaxo-otp"));
        assert(path_view(p@) =~= seq![p@[0]@, data_dir_name()]);
        Ok(p)
    }

    /// The encrypted apps file inside the vault directory.
    pub fn apps_file_path(&self, home: Option<String>, cwd: Option<String>) -> (r: Result<Vec<String>, AppError>)
        ensures
            base_dir_of(self@, crate::types::opt_string(home), crate::types::opt_string(cwd)) matches Some(
                b,
            ) ==> (r matches Ok(p) && path_view(p@) == seq![b, data_dir_name(), apps_file_name()]),
            base_dir_of(self@, crate::types::opt_string(home), crate::types::opt_string(cwd))
                is None ==> r is Err,
    {
        let mut p = self.data_dir(home, cwd)?;
        let ghost before = path_view(p@);
        p.push(String::from_str("apps.enc"));
        assert(path_view(p@) =~= before.push(apps_file_name()));
        Ok(p)
    }

    /// The encrypted Google authorization file inside the vault directory.
    pub fn google_auth_file_path(&self, home: Option<String>, cwd: Option<String>) -> (r: Result<Vec<String>, AppError>)
        ensures
            base_dir_of(self@, crate::types::opt_string(home), crate::types::opt_string(cwd)) matches Some(
                b,
            ) ==> (r matches Ok(p) && path_view(p@) == seq![b, data_dir_name(), google_auth_file_name()]),
            base_dir_of(self@, crate::types::opt_string(home), crate::types::opt_string(cwd))
                is None ==> r is Err,
    {
        let mut p = self.data_dir(home, cwd)?;
        let ghost before = path_view(p@);
        p.push(String::from_str("google_auth.enc"));
        assert(path_view(p@) =~= before.push(google_auth_file_name()));
        Ok(p)
    }
}

impl Default for Storage {
    fn default() -> (r: Storage)
        ensures
            r@ is None,
    {
        Storage::new()
    }
}

/// The same path with `suffix` appended to its last component (the backup
/// `<file>.backup` and the temporary `<file>.tmp`).
pub fn with_suffix(path: &Vec<String>, suffix: &str) -> (r: Vec<String>)
    requires
        path@.len() > 0,
    ensures
        path_view(r@) == path_view(path@).drop_last().push(path_view(path@).last() + suffix@),
{
    let n = path.len();
    let mut r: Vec<String> = Vec::new();
    let mut i: usize = 0;
    while i + 1 < n
        invariant
            i + 1 <= n,
            n == path@.len(),
            path_view(r@) == path_view(path@).take(i as int),
        decreases n - i,
    {
        let c = path[i].clone();
        let ghost prev = r@;
        r.push(c);
        proof {
            assert(path_view(r@) =~= path_view(prev).push(path@[i as int]@));
            assert(path_view(path@).take(i + 1) =~= path_view(path@).take(i as int).push(
                path@[i as int]@,
            ));
        }
        i = i + 1;
    }
    let last = crate::types::prefixed(path[n - 1].as_str(), suffix);
    let ghost before = path_view(r@);
    r.push(last);
    assert(path_view(r@) =~= before.push(path_view(path@).last() + suffix@));
    assert(path_view(path@).take(n - 1) =~= path_view(path@).drop_last());
    r
}

/// Permission bits that restrict a path to its owner: 0700 for directories,
/// 0600 for files.
pub fn owner_only_mode(is_dir: bool) -> (r: u32)
    ensures
        is_dir ==> r == 0o700,
        !is_dir ==> r == 0o600,
{
    if is_dir {
        0o700
    } else {
        0o600
    }
}

/// After the main vault file failed to load with `main_error`, the outcome of
/// trying its backup: the backup's apps (and the main file is to be restored
/// from the backup), or the main file's error when the backup fails too.
pub fn backup_outcome(main_error: AppError, backup: Result<Vec<OtpApp>, AppError>) -> (r: (Result<Vec<OtpApp>, AppError>, bool))
    ensures
        backup is Ok ==> r.1 && r.0 == backup,
        backup is Err ==> !r.1 && r.0 == Err::<Vec<OtpApp>, AppError>(main_error),
{
    match backup {
        Ok(apps) => (Ok(apps), true),
        Err(_) => (Err(main_error), false),
    }
}

} // verus!
