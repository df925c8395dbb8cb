//! The techniques that have more than one failure condition, and the names of those.

use vstd::prelude::*;

verus! {

/// A WCAG technique with its sub-conditions, see <https://www.w3.org/TR/WCAG20-TECHS/>.
#[derive(PartialOrd, Ord, Eq, PartialEq, Structural, Hash, Debug, Clone, Copy)]
pub enum Techniques {
    /// A title for the page.
    H25,
    /// Submit buttons.
    H32,
    /// Language attributes on the html element.
    H57,
    /// A meta redirect with a time limit.
    F40,
    /// A meta refresh that reloads the page.
    F41,
    /// The blink element.
    F47,
}

impl Techniques {
    /// The identifier of the technique.
    pub open spec fn name(self) -> Seq<char> {
        match self {
            Techniques::H25 => "H25"@,
            Techniques::H32 => "H32"@,
            Techniques::H57 => "H57"@,
            Techniques::F40 => "F40"@,
            Techniques::F41 => "F41"@,
            Techniques::F47 => "F47"@,
        }
    }

    /// The failure conditions of the technique, each as the technique's identifier, a dot
    /// and the sub-identifier.
    pub open spec fn pair_names(self) -> Seq<Seq<char>> {
        match self {
            Techniques::H25 => seq!["H25.1.NoTitleEl"@, "H25.1.EmptyTitle"@],
            Techniques::H32 => seq!["H32.2"@],
            Techniques::H57 => seq!["H57.2"@, "H57.3.Lang"@, "H57.3.XmlLang"@],
            Techniques::F40 => seq!["F40.2"@],
            Techniques::F41 => seq!["F41.2"@],
            Techniques::F47 => seq!["F47"@],
        }
    }

    /// The identifier of the technique, such as `H57`.
    pub fn as_str(&self) -> (s: &'static str)
        ensures
            s@ == self.name(),
    {
        match self {
            Techniques::H25 => "H25",
            Techniques::H32 => "H32",
            Techniques::H57 => "H57",
            Techniques::F40 => "F40",
            Techniques::F41 => "F41",
            Techniques::F47 => "F47",
        }
    }

    /// The failure conditions of the technique.
    pub fn pairs(&self) -> (p: Vec<&'static str>)
        ensures
            crate::text::literal_views(p@) == self.pair_names(),
    {
        let mut p: Vec<&'static str> = Vec::new();
        match self {
            Techniques::H25 => {
                p.push("H25.1.NoTitleEl");
                p.push("H25.1.EmptyTitle");
            },
            Techniques::H32 => {
                p.push("H32.2");
            },
            Techniques::H57 => {
                p.push("H57.2");
                p.push("H57.3.Lang");
                p.push("H57.3.XmlLang");
            },
            Techniques::F40 => {
                p.push("F40.2");
            },
            Techniques::F41 => {
                p.push("F41.2");
            },
            Techniques::F47 => {
                p.push("F47");
            },
        }
        assert(crate::text::literal_views(p@) =~= self.pair_names());
        p
    }
}

} // verus!
