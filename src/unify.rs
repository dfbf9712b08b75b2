use vstd::prelude::*;

use crate::term::{Term, TermView, Triple, TripleView};

verus! {

/// Two terms match when either is a blank node, which acts as a wildcard, or
/// when they are the same IRI or the same literal. A blank node is never bound
/// to a value: it matches anything at each comparison.
pub open spec fn terms_unify(a: TermView, b: TermView) -> bool {
    a is Blank || b is Blank || a == b
}

/// Two triples match when they match position by position.
pub open spec fn triples_unify(a: TripleView, b: TripleView) -> bool {
    terms_unify(a.subject, b.subject) && terms_unify(a.predicate, b.predicate) && terms_unify(
        a.object,
        b.object,
    )
}

/// Decides whether two terms match: blank nodes match anything, IRIs match the
/// same IRI, literals match a literal with the same value, datatype and language.
pub fn unify_term(a: &Term, b: &Term) -> (r: bool)
    ensures
        r == terms_unify(a@, b@),
{
    match (a, b) {
        (Term::BlankNode(_), _) => true,
        (_, Term::BlankNode(_)) => true,
        (Term::NamedNode(_), Term::NamedNode(_)) => a.same_as(b),
        (Term::Literal(_), Term::Literal(_)) => a.same_as(b),
        _ => false,
    }
}

/// Decides whether two triples match position by position.
pub fn unify_triples(a: &Triple, b: &Triple) -> (r: bool)
    ensures
        r == triples_unify(a@, b@),
{
    unify_term(&a.subject, &b.subject) && unify_term(&a.predicate, &b.predicate) && unify_term(
        &a.object,
        &b.object,
    )
}

/// A triple that holds a blank node matches every triple that agrees with it
/// on the positions that are not blank, whatever the other triple holds in the
/// blank positions.
pub proof fn lemma_blank_positions_match_anything(t: TripleView, u: TripleView)
    requires
        t.subject is Blank || t.predicate is Blank || t.object is Blank,
        t.subject is Blank || t.subject == u.subject,
        t.predicate is Blank || t.predicate == u.predicate,
        t.object is Blank || t.object == u.object,
    ensures
        triples_unify(t, u),
{
}

} // verus!
