use vstd::prelude::*;

verus! {

/// What a package is: its name and its version, as the spec sees them.
pub struct PDataView {
    pub name: Seq<char>,
    pub ver: Seq<char>,
}

/// A package: the name of the binary it installs and its version.
#[derive(Clone, Debug, PartialEq, Eq)]
pub struct PData {
    pub name: String,
    pub ver: String,
}

impl View for PData {
    type V = PDataView;

    open spec fn view(&self) -> PDataView {
        PDataView { name: self.name@, ver: self.ver@ }
    }
}

/// The folder name of a package: its name, a dash, and its version.
pub open spec fn spec_folder_name(name: Seq<char>, ver: Seq<char>) -> Seq<char> {
    name + seq!['-'] + ver
}

impl PData {
    /// A package with the given name and version.
    pub fn new(n: &str, v: &str) -> (p: PData)
        ensures
            p.name@ == n@,
            p.ver@ == v@,
    {
        PData { name: n.to_owned(), ver: v.to_owned() }
    }

    /// The name of the repository folder that holds this package:
    /// `<name>-<ver>`.
    pub fn folder_name(&self) -> (s: String)
        ensures
            s@ == spec_folder_name(self.name@, self.ver@),
    {
        let dash = "-";
        proof {
            reveal_strlit("-");
        }
        let s = self.name.clone().concat(dash);
        s.concat(self.ver.as_str())
    }
}

} // verus!
