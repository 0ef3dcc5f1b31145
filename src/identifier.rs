use vstd::prelude::*;

verus! {

/// The identifier scheme under which substances are matched.
#[derive(Debug, Clone, Copy, PartialEq, Eq, Structural)]
pub enum IdentifierOption {
    Cas,
    Name,
    IupacName,
    Smiles,
    Inchi,
    Formula,
}

/// The names under which a substance is known. Each field is optional.
#[derive(Debug, Clone)]
pub struct Identifier {
    /// CAS registry number
    pub cas: Option<String>,
    /// Common name
    pub name: Option<String>,
    /// IUPAC name
    pub iupac_name: Option<String>,
    /// SMILES key
    pub smiles: Option<String>,
    /// InChI key
    pub inchi: Option<String>,
    /// Chemical formula
    pub formula: Option<String>,
}

/// The text of an optional field, if it is present.
pub open spec fn field_view(f: Option<String>) -> Option<Seq<char>> {
    match f {
        Some(s) => Some(s@),
        None => None,
    }
}

impl Identifier {
    /// The field that `option` selects.
    pub open spec fn field(&self, option: IdentifierOption) -> Option<String> {
        match option {
            IdentifierOption::Cas => self.cas,
            IdentifierOption::Name => self.name,
            IdentifierOption::IupacName => self.iupac_name,
            IdentifierOption::Smiles => self.smiles,
            IdentifierOption::Inchi => self.inchi,
            IdentifierOption::Formula => self.formula,
        }
    }

    /// The key of the substance under `option`, if that field is present.
    pub open spec fn key(&self, option: IdentifierOption) -> Option<Seq<char>> {
        field_view(self.field(option))
    }

    /// Creates an identifier from its fields.
    pub fn new(
        cas: Option<String>,
        name: Option<String>,
        iupac_name: Option<String>,
        smiles: Option<String>,
        inchi: Option<String>,
        formula: Option<String>,
    ) -> (r: Self)
        ensures
            r.cas == cas,
            r.name == name,
            r.iupac_name == iupac_name,
            r.smiles == smiles,
            r.inchi == inchi,
            r.formula == formula,
    {
        Identifier { cas, name, iupac_name, smiles, inchi, formula }
    }

    /// The field that `option` selects, as a borrowed string.
    pub fn as_str(&self, option: IdentifierOption) -> (r: Option<&String>)
        ensures
            r matches Some(s) ==> self.field(option) == Some(*s),
            r is None <==> self.field(option) is None,
    {
        let f = match option {
            IdentifierOption::Cas => &self.cas,
            IdentifierOption::Name => &self.name,
            IdentifierOption::IupacName => &self.iupac_name,
            IdentifierOption::Smiles => &self.smiles,
            IdentifierOption::Inchi => &self.inchi,
            IdentifierOption::Formula => &self.formula,
        };
        match f {
            Some(s) => Some(s),
            None => None,
        }
    }
}

} // verus!
