//! The WCAG techniques that the rules test.

use vstd::prelude::*;

verus! {

/// A WCAG technique, see <https://www.w3.org/TR/WCAG20-TECHS/>.
#[derive(PartialOrd, Ord, Eq, PartialEq, Structural, Hash, Debug, Clone, Copy)]
pub enum Techniques {
    /// Contrast of text against its background.
    G18,
    /// Text alternatives for the areas of image maps.
    H24,
    /// A title for the page.
    H25,
    /// Submit buttons.
    H32,
    /// Link text that describes the purpose of a link.
    H30,
    /// Text alternatives on applet elements.
    H35,
    /// Alt attributes on images used as submit buttons.
    H36,
    /// Alt attributes on img elements.
    H37,
    /// Headings.
    H42,
    /// Labels associated with form controls.
    H44,
    /// The body of the object element.
    H53,
    /// Language attributes on the html element.
    H57,
    /// The scope attribute in data tables.
    H63,
    /// The title attribute of frame and iframe elements.
    H64,
    /// Null alt text and no title on images to be ignored.
    H67,
    /// Descriptions for groups of form controls.
    H71,
    /// Form controls and links with a name.
    H91,
    /// Unique id attributes.
    H93,
    /// A meta redirect with a time limit.
    F40,
    /// A meta refresh that reloads the page.
    F41,
    /// The blink element.
    F47,
    /// Duplicate values of type ID.
    F77,
}

impl Techniques {
    /// The identifier of the technique.
    pub open spec fn name(self) -> Seq<char> {
        match self {
            Techniques::G18 => "G18"@,
            Techniques::H24 => "H24"@,
            Techniques::H25 => "H25"@,
            Techniques::H32 => "H32"@,
            Techniques::H30 => "H30"@,
            Techniques::H35 => "H35"@,
            Techniques::H36 => "H36"@,
            Techniques::H37 => "H37"@,
            Techniques::H42 => "H42"@,
            Techniques::H44 => "H44"@,
            Techniques::H53 => "H53"@,
            Techniques::H57 => "H57"@,
            Techniques::H63 => "H63"@,
            Techniques::H64 => "H64"@,
            Techniques::H67 => "H67"@,
            Techniques::H71 => "H71"@,
            Techniques::H91 => "H91"@,
            Techniques::H93 => "H93"@,
            Techniques::F40 => "F40"@,
            Techniques::F41 => "F41"@,
            Techniques::F47 => "F47"@,
            Techniques::F77 => "F77"@,
        }
    }

    /// The identifier of the technique, such as `H37`.
    pub fn as_str(&self) -> (s: &'static str)
        ensures
            s@ == self.name(),
    {
        match self {
            Techniques::G18 => "G18",
            Techniques::H24 => "H24",
            Techniques::H25 => "H25",
            Techniques::H32 => "H32",
            Techniques::H30 => "H30",
            Techniques::H35 => "H35",
            Techniques::H36 => "H36",
            Techniques::H37 => "H37",
            Techniques::H42 => "H42",
            Techniques::H44 => "H44",
            Techniques::H53 => "H53",
            Techniques::H57 => "H57",
            Techniques::H63 => "H63",
            Techniques::H64 => "H64",
            Techniques::H67 => "H67",
            Techniques::H71 => "H71",
            Techniques::H91 => "H91",
            Techniques::H93 => "H93",
            Techniques::F40 => "F40",
            Techniques::F41 => "F41",
            Techniques::F47 => "F47",
            Techniques::F77 => "F77",
        }
    }
}

} // verus!
