//! The directories remembered between runs. Reading and writing the settings
//! file is the caller's part.
use vstd::prelude::*;

use crate::catalog::opt_view;

verus! {

#[derive(Debug, Clone, Default)]
pub struct AppSettings {
    pub last_download_directory: Option<String>,
    pub last_metadata_folder: Option<String>,
}

/// The remembered directory `dir`, kept only where `dir_exists` said that it
/// still exists.
pub open spec fn existing_dir<F: Fn(&String) -> bool>(
    dir: Option<String>,
    dir_exists: F,
    r: Option<String>,
) -> bool {
    match dir {
        None => r is None,
        Some(d) => (r == Some(d) && dir_exists.ensures((&d,), true)) || (r is None && dir_exists.ensures(
            (&d,),
            false,
        )),
    }
}

fn checked_dir<F: Fn(&String) -> bool>(dir: &Option<String>, dir_exists: F) -> (r: Option<String>)
    requires
        forall|p: &String| dir_exists.requires((p,)),
    ensures
        existing_dir(*dir, dir_exists, r),
{
    match dir {
        Some(d) => {
            if dir_exists(d) {
                Some(d.clone())
            } else {
                None
            }
        },
        None => None,
    }
}

impl AppSettings {
    /// The last download directory, if one is remembered and still exists.
    pub fn get_download_directory<F: Fn(&String) -> bool>(&self, dir_exists: F) -> (r: Option<String>)
        requires
            forall|p: &String| dir_exists.requires((p,)),
        ensures
            existing_dir(self.last_download_directory, dir_exists, r),
    {
        checked_dir(&self.last_download_directory, dir_exists)
    }

    /// The last metadata folder, if one is remembered and still exists.
    pub fn get_metadata_folder<F: Fn(&String) -> bool>(&self, dir_exists: F) -> (r: Option<String>)
        requires
            forall|p: &String| dir_exists.requires((p,)),
        ensures
            existing_dir(self.last_metadata_folder, dir_exists, r),
    {
        checked_dir(&self.last_metadata_folder, dir_exists)
    }

    pub fn set_download_directory(&mut self, path: Option<&str>)
        ensures
            opt_view(final(self).last_download_directory) == match path {
                Some(p) => Some(p@),
                None => None::<Seq<char>>,
            },
            final(self).last_metadata_folder == old(self).last_metadata_folder,
    {
        self.last_download_directory = match path {
            Some(p) => Some(p.to_owned()),
            None => None,
        };
    }

    pub fn set_metadata_folder(&mut self, path: Option<&str>)
        ensures
            opt_view(final(self).last_metadata_folder) == match path {
                Some(p) => Some(p@),
                None => None::<Seq<char>>,
            },
            final(self).last_download_directory == old(self).last_download_directory,
    {
        self.last_metadata_folder = match path {
            Some(p) => Some(p.to_owned()),
            None => None,
        };
    }
}

} // verus!
