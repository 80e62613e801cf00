//! A nixpkgs package as the tool shows and stages it.

use vstd::prelude::*;

verus! {

/// A package of nixpkgs: its attribute path, version and description.
#[derive(Debug, Clone)]
pub struct Package {
    pub attr_name: String,
    pub version: String,
    pub description: String,
}

/// The texts a package holds.
pub struct PackageView {
    pub attr_name: Seq<char>,
    pub version: Seq<char>,
    pub description: Seq<char>,
}

impl View for Package {
    type V = PackageView;

    open spec fn view(&self) -> PackageView {
        PackageView {
            attr_name: self.attr_name@,
            version: self.version@,
            description: self.description@,
        }
    }
}

/// The texts of each package of a list.
pub open spec fn package_views(s: Seq<Package>) -> Seq<PackageView> {
    s.map_values(|p: Package| p@)
}

/// Some package of the list has the attribute name `attr`.
pub open spec fn has_attr(s: Seq<Package>, attr: Seq<char>) -> bool {
    exists|i: int| 0 <= i < s.len() && (#[trigger] s[i]).attr_name@ == attr
}

impl Package {
    /// A field-by-field copy.
    pub(crate) fn duplicate(&self) -> (p: Package)
        ensures
            p == *self,
    {
        Package {
            attr_name: self.attr_name.clone(),
            version: self.version.clone(),
            description: self.description.clone(),
        }
    }
}

/// Whether some package of `pkgs` has the attribute name `attr`.
pub fn contains_attr(pkgs: &Vec<Package>, attr: &str) -> (b: bool)
    ensures
        b == has_attr(pkgs@, attr@),
{
    let target = String::from_str(attr);
    let mut i: usize = 0;
    while i < pkgs.len()
        invariant
            i <= pkgs.len(),
            target@ == attr@,
            forall|j: int| 0 <= j < i ==> (#[trigger] pkgs@[j]).attr_name@ != attr@,
        decreases pkgs.len() - i,
    {
        if pkgs[i].attr_name == target {
            return true;
        }
        i = i + 1;
    }
    false
}

} // verus!

verus! {

/// `i` is the first position of a package named `attr`.
pub open spec fn first_attr_at(s: Seq<Package>, attr: Seq<char>, i: int) -> bool {
    &&& 0 <= i < s.len()
    &&& s[i].attr_name@ == attr
    &&& forall|j: int| 0 <= j < i ==> (#[trigger] s[j]).attr_name@ != attr
}

/// Position of the first package of `pkgs` named `attr`, if any.
pub fn position_of_attr(pkgs: &Vec<Package>, attr: &String) -> (r: Option<usize>)
    ensures
        match r {
            Some(i) => first_attr_at(pkgs@, attr@, i as int),
            None => !has_attr(pkgs@, attr@),
        },
{
    let mut i: usize = 0;
    while i < pkgs.len()
        invariant
            i <= pkgs.len(),
            forall|j: int| 0 <= j < i ==> (#[trigger] pkgs@[j]).attr_name@ != attr@,
        decreases pkgs.len() - i,
    {
        if pkgs[i].attr_name == *attr {
            return Some(i);
        }
        i = i + 1;
    }
    None
}

} // verus!
