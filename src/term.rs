use vstd::prelude::*;
use vstd::string::*;

verus! {

/// The mathematical value of a term: what equality and matching look at.
pub enum TermView {
    Named(Seq<char>),
    Blank(Seq<char>),
    Lit { value: Seq<char>, datatype: Seq<char>, language: Option<Seq<char>> },
}

/// The mathematical value of a triple.
pub struct TripleView {
    pub subject: TermView,
    pub predicate: TermView,
    pub object: TermView,
}

/// A literal: its lexical value, the IRI of its datatype and an optional language tag.
#[derive(Clone, Debug, PartialEq, Eq)]
pub struct Literal {
    pub value: String,
    pub datatype: String,
    pub language: Option<String>,
}

/// An RDF term: an IRI, a blank node or a literal.
#[derive(Clone, Debug, PartialEq, Eq)]
pub enum Term {
    NamedNode(String),
    BlankNode(String),
    Literal(Literal),
}

/// An RDF statement. Predicates are IRIs in well-formed data, but the matching
/// rules are defined for any term in any position.
#[derive(Clone, Debug, PartialEq, Eq)]
pub struct Triple {
    pub subject: Term,
    pub predicate: Term,
    pub object: Term,
}

pub open spec fn option_view(o: Option<String>) -> Option<Seq<char>> {
    match o {
        Some(s) => Some(s@),
        None => None,
    }
}

/// The values of a sequence of triples.
pub open spec fn views(s: Seq<Triple>) -> Seq<TripleView> {
    s.map_values(|t: Triple| t@)
}

impl View for Term {
    type V = TermView;

    open spec fn view(&self) -> TermView {
        match self {
            Term::NamedNode(iri) => TermView::Named(iri@),
            Term::BlankNode(id) => TermView::Blank(id@),
            Term::Literal(l) => TermView::Lit {
                value: l.value@,
                datatype: l.datatype@,
                language: option_view(l.language),
            },
        }
    }
}

impl View for Triple {
    type V = TripleView;

    open spec fn view(&self) -> TripleView {
        TripleView { subject: self.subject@, predicate: self.predicate@, object: self.object@ }
    }
}

fn option_string_eq(a: &Option<String>, b: &Option<String>) -> (r: bool)
    ensures
        r == (option_view(*a) == option_view(*b)),
{
    match (a, b) {
        (Some(x), Some(y)) => x.eq(y),
        (None, None) => true,
        _ => false,
    }
}

impl Term {
    /// Whether this term is the IRI `iri`.
    pub fn is_named(&self, iri: &str) -> (r: bool)
        ensures
            r == (self@ == TermView::Named(iri@)),
    {
        match self {
            Term::NamedNode(n) => n.eq(&String::from_str(iri)),
            _ => false,
        }
    }

    /// Structural equality of two terms.
    pub fn same_as(&self, other: &Term) -> (r: bool)
        ensures
            r == (self@ == other@),
    {
        match (self, other) {
            (Term::NamedNode(a), Term::NamedNode(b)) => a.eq(b),
            (Term::BlankNode(a), Term::BlankNode(b)) => a.eq(b),
            (Term::Literal(a), Term::Literal(b)) => {
                a.value.eq(&b.value) && a.datatype.eq(&b.datatype) && option_string_eq(
                    &a.language,
                    &b.language,
                )
            },
            _ => false,
        }
    }

    /// A copy of this term.
    pub fn duplicate(&self) -> (r: Term)
        ensures
            r == *self,
    {
        match self {
            Term::NamedNode(a) => Term::NamedNode(a.clone()),
            Term::BlankNode(a) => Term::BlankNode(a.clone()),
            Term::Literal(l) => Term::Literal(
                Literal {
                    value: l.value.clone(),
                    datatype: l.datatype.clone(),
                    language: match &l.language {
                        Some(t) => Some(t.clone()),
                        None => None,
                    },
                },
            ),
        }
    }
}

impl Triple {
    pub fn new(subject: Term, predicate: Term, object: Term) -> (r: Triple)
        ensures
            r.subject == subject,
            r.predicate == predicate,
            r.object == object,
    {
        Triple { subject, predicate, object }
    }

    /// Structural equality of two triples.
    pub fn same_as(&self, other: &Triple) -> (r: bool)
        ensures
            r == (self@ == other@),
    {
        self.subject.same_as(&other.subject) && self.predicate.same_as(&other.predicate)
            && self.object.same_as(&other.object)
    }

    /// A copy of this triple.
    pub fn duplicate(&self) -> (r: Triple)
        ensures
            r == *self,
    {
        Triple {
            subject: self.subject.duplicate(),
            predicate: self.predicate.duplicate(),
            object: self.object.duplicate(),
        }
    }
}

} // verus!
