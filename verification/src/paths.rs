//! Where the program keeps its files, below the user's home directory.

use vstd::prelude::*;

use crate::text;

verus! {

/// A path below the user's home directory, as its components from there.
#[derive(Debug)]
pub struct StatePath {
    pub parts: Vec<String>,
}

impl View for StatePath {
    type V = Seq<Seq<char>>;

    open spec fn view(&self) -> Seq<Seq<char>> {
        text::texts(self.parts@)
    }
}

/// The components of the directory for the program's own files.
pub open spec fn rune_dir_parts() -> Seq<Seq<char>> {
    seq![".rune"@]
}

/// The components of the directory that holds the problems.
pub open spec fn workspace_parts() -> Seq<Seq<char>> {
    seq!["cp"@, "Codeforces"@]
}

/// The directory for the program's own files.
pub fn rune_dir() -> (r: StatePath)
    ensures
        r@ == rune_dir_parts(),
{
    let mut parts: Vec<String> = Vec::new();
    parts.push(".rune".to_string());
    let r = StatePath { parts };
    proof {
        assert(r@ =~= rune_dir_parts());
    }
    r
}

/// The file `name` among the program's own files.
pub fn rune_file(name: &str) -> (r: StatePath)
    ensures
        r@ == rune_dir_parts().push(name@),
{
    let mut r = rune_dir();
    let ghost before = r@;
    r.parts.push(name.to_string());
    proof {
        assert(r@ =~= before.push(name@));
    }
    r
}

/// The directory that holds the problems.
pub fn workspace_root() -> (r: StatePath)
    ensures
        r@ == workspace_parts(),
{
    let mut parts: Vec<String> = Vec::new();
    parts.push("cp".to_string());
    parts.push("Codeforces".to_string());
    let r = StatePath { parts };
    proof {
        assert(r@ =~= workspace_parts());
    }
    r
}

} // verus!
