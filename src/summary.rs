use vstd::prelude::*;

verus! {

/// How the program typed so far matches the known executables.
#[derive(Clone, Debug, PartialEq, Eq)]
pub enum Summary {
    /// The program names an executable exactly.
    Exact(String),
    /// The program starts the name of an executable: what was typed, and
    /// the rest of the name.
    Partial(String, String),
    /// No executable starts with the program.
    NoMatch,
}

/// What a summary is, as characters.
pub enum SummaryModel {
    Exact(Seq<char>),
    Partial(Seq<char>, Seq<char>),
    NoMatch,
}

impl View for Summary {
    type V = SummaryModel;

    open spec fn view(&self) -> SummaryModel {
        match self {
            Summary::Exact(s) => SummaryModel::Exact(s@),
            Summary::Partial(p, r) => SummaryModel::Partial(p@, r@),
            Summary::NoMatch => SummaryModel::NoMatch,
        }
    }
}

impl Summary {
    /// Whether the match is exact.
    pub fn is_exact(&self) -> (r: bool)
        ensures
            r == self is Exact,
    {
        match self {
            Summary::Exact(_) => true,
            _ => false,
        }
    }

    /// Whether the match is partial.
    pub fn is_partial(&self) -> (r: bool)
        ensures
            r == self is Partial,
    {
        match self {
            Summary::Partial(_, _) => true,
            _ => false,
        }
    }

    /// Whether nothing matches.
    pub fn is_no_match(&self) -> (r: bool)
        ensures
            r == self is NoMatch,
    {
        match self {
            Summary::NoMatch => true,
            _ => false,
        }
    }

    /// How many characters a partial match adds after the cursor; 0
    /// otherwise.
    pub fn shift(&self) -> (r: usize)
        ensures
            r == match self {
                Summary::Partial(_, rest) => rest@.len(),
                _ => 0,
            },
    {
        match self {
            Summary::Partial(_partial, rest) => rest.as_str().unicode_len(),
            _ => 0,
        }
    }
}

} // verus!
