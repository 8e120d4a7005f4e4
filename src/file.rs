//! A tree of files and directories.

use vstd::prelude::*;

verus! {

/// A node of a file tree: a file, or a directory with its entries.
pub struct File {
    pub name: String,
    pub is_dir: bool,
    pub dir_files: Option<Vec<File>>,
}

impl File {
    /// A node with the given parts; the name defaults to empty and `is_dir`
    /// to false.
    pub fn init(name: Option<String>, is_dir: Option<bool>, dir_files: Option<Vec<File>>) -> (r: Self)
        ensures
            r.name@ == match name {
                Some(n) => n@,
                None => Seq::<char>::empty(),
            },
            r.is_dir == match is_dir {
                Some(d) => d,
                None => false,
            },
            r.dir_files == dir_files,
    {
        let name = match name {
            Some(n) => n,
            None => String::new(),
        };
        let is_dir = match is_dir {
            Some(d) => d,
            None => false,
        };
        File { name, is_dir, dir_files }
    }

    /// Adds an entry to a node that holds entries; other nodes stay as they are.
    pub fn add_file(&mut self, new_file: File)
        ensures
            final(self).name == old(self).name,
            final(self).is_dir == old(self).is_dir,
            match old(self).dir_files {
                Some(fs) => final(self).dir_files matches Some(nfs) && nfs@ == fs@.push(new_file),
                None => final(self).dir_files is None,
            },
    {
        match &mut self.dir_files {
            Some(files) => files.push(new_file),
            None => {},
        }
    }
}

} // verus!
