//! User enumeration and home-directory resolution across platform
//! conventions.  Each provider knows its platform's user-root directories —
//! Windows has a default root and a localized alternate, and enumerates
//! users through the native account facility; macOS and Unix list their
//! single user root directly.  Resolution never fails for a missing user,
//! it reports absence instead.

use vstd::prelude::*;
use crate::organizer::types::DirEntry;
use crate::text::join_path;

verus! {

/// Relies on `std::path::Path::exists`: whether `path` points at an existing
/// entity on disk at the time of the call.  What comes back depends on the
/// state of the disk.
#[verifier::external_body]
fn path_exists(path: &str) -> bool {
    std::path::Path::new(path).exists()
}

/// Relies on `walkdir::WalkDir`: the immediate children of `path`, symlinks
/// followed, entries that cannot be read skipped, each child reduced to its
/// file name, its type flags and its length.  What comes back depends on the
/// state of the disk.
#[verifier::external_body]
fn list_dir(path: &str) -> (r: Vec<DirEntry>) {
    let mut v = Vec::new();
    let walk = walkdir::WalkDir::new(path).follow_links(true).min_depth(1).max_depth(1);
    for entry in walk.into_iter().filter_map(|e| e.ok()) {
        v.push(DirEntry {
            name: entry.file_name().to_string_lossy().into_owned(),
            is_dir: entry.file_type().is_dir(),
            is_file: entry.file_type().is_file(),
            len: entry.metadata().ok().map(|m| m.len()),
        });
    }
    v
}

/// The names of the entries that are directories, in listing order.
pub open spec fn spec_dir_names(s: Seq<DirEntry>) -> Seq<Seq<char>>
    decreases s.len(),
{
    if s.len() == 0 {
        Seq::empty()
    } else {
        spec_dir_names(s.drop_last()) + if s.last().is_dir {
            seq![s.last().name@]
        } else {
            Seq::empty()
        }
    }
}

/// Keeps the names of the entries that are directories, in order.
pub fn users_from_entries(entries: &Vec<DirEntry>) -> (r: Vec<String>)
    ensures
        r.deep_view() == spec_dir_names(entries@),
{
    let mut r: Vec<String> = Vec::new();
    let mut i: usize = 0;
    proof {
        assert(entries@.take(0) =~= Seq::<DirEntry>::empty());
        assert(r.deep_view() =~= spec_dir_names(entries@.take(0)));
    }
    while i < entries.len()
        invariant
            i <= entries@.len(),
            r.deep_view() == spec_dir_names(entries@.take(i as int)),
        decreases entries@.len() - i,
    {
        proof {
            assert(entries@.take(i as int + 1).drop_last() =~= entries@.take(i as int));
            assert(entries@.take(i as int + 1).last() == entries@[i as int]);
        }
        let entry = &entries[i];
        if entry.is_dir {
            let ghost before = r.deep_view();
            r.push(entry.name.clone());
            proof {
                assert(r.deep_view() =~= before + seq![entries@[i as int].name@]);
            }
        } else {
            proof {
                assert(spec_dir_names(entries@.take(i as int + 1)) =~= spec_dir_names(
                    entries@.take(i as int),
                ));
            }
        }
        i = i + 1;
    }
    proof {
        assert(entries@.take(entries@.len() as int) =~= entries@);
    }
    r
}

/// Relies on `sysinfo::Users`: the names of the machine's local accounts,
/// as the platform's native account facility reports them (`NetUserEnum` on
/// Windows, the system user database elsewhere).  What comes back depends
/// on the machine.
#[verifier::external_body]
fn system_account_names() -> (r: Vec<String>) {
    let users = sysinfo::Users::new_with_refreshed_list();
    users.list().iter().map(|u| u.name().to_string()).collect()
}

/// Platform-specific resolution of local users and their home directories.
pub trait UserProvider {
    /// The platform's user-root directories, the default convention first.
    spec fn spec_roots(&self) -> Seq<Seq<char>>;

    /// Candidate usernames that have a real home directory on this machine.
    fn list_users(&self) -> (users: Vec<String>);

    /// The home directory for an exact username match under one of the
    /// platform's user roots, or nothing when no such directory exists on
    /// this machine.
    fn user_home(&self, username: &str) -> (home: Option<String>)
        ensures
            home matches Some(p) ==> exists|i: int|
                #![auto]
                0 <= i < self.spec_roots().len() && p@ == self.spec_roots()[i] + "/"@
                    + username@,
    ;
}

/// Resolution under the Windows convention: the native account listing
/// filtered to accounts with a home folder, under the default `C:/Users`
/// root or the localized `C:/Usuarios` alternate.
pub struct WindowsUserProvider;

/// Resolution under the macOS convention.
pub struct MacUserProvider;

/// Resolution under the generic Unix convention.
pub struct UnixUserProvider;

/// Every name in `kept` occurs in `accounts`.
pub open spec fn spec_names_from(kept: Seq<String>, accounts: Seq<String>) -> bool {
    forall|p: int|
        #![trigger kept[p]]
        0 <= p < kept.len() ==> exists|j: int|
            #![auto]
            0 <= j < accounts.len() && kept[p]@ == accounts[j]@
}

/// Keeps the accounts that resolve to a home directory under one of the
/// Windows user roots, in order; accounts without one (system and service
/// accounts) are dropped.  Every name returned occurs in the input.
pub fn windows_users_with_home(accounts: &Vec<String>) -> (r: Vec<String>)
    ensures
        spec_names_from(r@, accounts@),
{
    let mut r: Vec<String> = Vec::new();
    let mut i: usize = 0;
    while i < accounts.len()
        invariant
            i <= accounts@.len(),
            spec_names_from(r@, accounts@),
        decreases accounts@.len() - i,
    {
        let account = &accounts[i];
        if WindowsUserProvider.user_home(account.as_str()).is_some() {
            let ghost before = r@;
            r.push(account.clone());
            proof {
                assert forall|p: int| #![trigger r@[p]] 0 <= p < r@.len() implies exists|j: int|
                    #![auto]
                    0 <= j < accounts@.len() && r@[p]@ == accounts@[j]@ by {
                    if p < r@.len() - 1 {
                        assert(r@[p] == before[p]);
                        assert(spec_names_from(before, accounts@));
                    } else {
                        assert(r@[p]@ == accounts@[i as int]@);
                    }
                }
                assert(spec_names_from(r@, accounts@));
            }
        }
        i = i + 1;
    }
    r
}

impl UserProvider for WindowsUserProvider {
    open spec fn spec_roots(&self) -> Seq<Seq<char>> {
        seq!["C:/Users"@, "C:/Usuarios"@]
    }

    fn list_users(&self) -> (users: Vec<String>) {
        let accounts = system_account_names();
        windows_users_with_home(&accounts)
    }

    fn user_home(&self, username: &str) -> (home: Option<String>) {
        let candidate = join_path("C:/Users", username);
        if path_exists(candidate.as_str()) {
            proof {
                assert(candidate@ == self.spec_roots()[0] + "/"@ + username@);
            }
            return Some(candidate);
        }
        let localized = join_path("C:/Usuarios", username);
        if path_exists(localized.as_str()) {
            proof {
                assert(localized@ == self.spec_roots()[1] + "/"@ + username@);
            }
            return Some(localized);
        }
        None
    }
}

impl UserProvider for MacUserProvider {
    open spec fn spec_roots(&self) -> Seq<Seq<char>> {
        seq!["/Users"@]
    }

    fn list_users(&self) -> (users: Vec<String>) {
        let entries = list_dir("/Users");
        users_from_entries(&entries)
    }

    fn user_home(&self, username: &str) -> (home: Option<String>) {
        let candidate = join_path("/Users", username);
        if path_exists(candidate.as_str()) {
            proof {
                assert(candidate@ == self.spec_roots()[0] + "/"@ + username@);
            }
            Some(candidate)
        } else {
            None
        }
    }
}

impl UserProvider for UnixUserProvider {
    open spec fn spec_roots(&self) -> Seq<Seq<char>> {
        seq!["/home"@]
    }

    fn list_users(&self) -> (users: Vec<String>) {
        let entries = list_dir("/home");
        users_from_entries(&entries)
    }

    fn user_home(&self, username: &str) -> (home: Option<String>) {
        let candidate = join_path("/home", username);
        if path_exists(candidate.as_str()) {
            proof {
                assert(candidate@ == self.spec_roots()[0] + "/"@ + username@);
            }
            Some(candidate)
        } else {
            None
        }
    }
}

} // verus!
