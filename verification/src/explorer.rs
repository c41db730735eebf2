//! The tree that the file explorer shows.

use vstd::prelude::*;

verus! {

/// `std::path::PathBuf`, carried as it comes.
#[verifier::external_type_specification]
#[verifier::external_body]
pub struct ExPathBuf(std::path::PathBuf);

/// `std::time::SystemTime`, carried as it comes.
#[verifier::external_type_specification]
#[verifier::external_body]
pub struct ExSystemTime(std::time::SystemTime);

/// What an entry of a directory is.
#[derive(Debug, Clone, Copy, PartialEq, Eq, Structural)]
pub enum NodeType {
    File,
    Directory,
    Other,
}

impl NodeType {
    /// The type of an entry from what the file system says of it: a
    /// directory first, then a file, else something other.
    pub open spec fn classify(is_dir: bool, is_file: bool) -> NodeType {
        if is_dir {
            NodeType::Directory
        } else if is_file {
            NodeType::File
        } else {
            NodeType::Other
        }
    }

    /// The type of an entry from what the file system says of it.
    pub fn of(is_dir: bool, is_file: bool) -> (entry_type: NodeType)
        ensures
            entry_type == NodeType::classify(is_dir, is_file),
    {
        if is_dir {
            NodeType::Directory
        } else if is_file {
            NodeType::File
        } else {
            NodeType::Other
        }
    }
}

/// An entry of the explorer: a file, or a directory with its entries.
#[derive(Debug)]
pub struct TreeNode {
    pub name: String,
    pub path: std::path::PathBuf,
    pub entry_type: NodeType,
    pub is_dir: bool,
    pub children: Vec<TreeNode>,
    pub _modified: std::time::SystemTime,
}

impl TreeNode {
    /// An entry without children. Its name is the last component of the
    /// path, and empty where the path has none that is text.
    pub fn new(
        path: std::path::PathBuf,
        file_name: Option<String>,
        is_dir: bool,
        is_file: bool,
        modified: std::time::SystemTime,
    ) -> (entry: TreeNode)
        ensures
            entry.path == path,
            entry.name@ == match file_name {
                Some(name) => name@,
                None => Seq::<char>::empty(),
            },
            entry.is_dir == is_dir,
            entry.entry_type == NodeType::classify(is_dir, is_file),
            entry.children@.len() == 0,
            entry._modified == modified,
    {
        let name = match file_name {
            Some(name) => name,
            None => String::new(),
        };
        TreeNode {
            path,
            name,
            is_dir,
            _modified: modified,
            children: Vec::new(),
            entry_type: NodeType::of(is_dir, is_file),
        }
    }
}

} // verus!
