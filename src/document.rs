use vstd::prelude::*;
use vstd::string::*;

use crate::check::{
    check_assertions, check_implications, ensure_is_log_proof, get_named_objects_for_predicate,
    declared_objects, implication_outcome, is_proof, is_valid_iri, iri_is_valid, premises_outcome,
    resolve, strings, verdict_view, ProofCheckError, ProofFailure, LOG_CONCLUSION, LOG_INCLUDES,
};
use crate::graph::Graph;
use crate::term::TripleView;

verus! {

/// The verdict on a list of conclusions: the first one that no rule leads to, if any.
pub open spec fn conclusions_outcome(g: Seq<TripleView>, anchors: Seq<Seq<char>>) -> Result<
    (),
    ProofFailure,
>
    decreases anchors.len(),
{
    if anchors.len() == 0 {
        Ok(())
    } else if implication_outcome(g, anchors[0]) is Err {
        implication_outcome(g, anchors[0])
    } else {
        conclusions_outcome(g, anchors.drop_first())
    }
}

/// The knowledge base after the conclusions `anchors` were resolved in order,
/// each against the knowledge base that the ones before it left.
pub open spec fn derived_kb(g: Seq<TripleView>, anchors: Seq<Seq<char>>, kb: Seq<TripleView>) -> Seq<
    TripleView,
>
    decreases anchors.len(),
{
    if anchors.len() == 0 {
        kb
    } else {
        derived_kb(g, anchors.drop_first(), resolve(g, anchors[0], kb))
    }
}

/// The verdict on the proof document `doc` of the graph `g`, whose IRI is valid:
/// it must be typed as a proof, name at least one premise and one conclusion by
/// IRI (none are found when the vocabulary's own IRIs do not parse), every premise must be satisfied by `g` itself, and some rule must lead
/// to every conclusion. The first failure in that order is reported.
pub open spec fn proof_outcome(g: Seq<TripleView>, doc: Seq<char>) -> Result<(), ProofFailure> {
    let includes = declared_objects(g, doc, LOG_INCLUDES@);
    let conclusions = declared_objects(g, doc, LOG_CONCLUSION@);
    if !is_proof(g, doc) {
        Err(ProofFailure::NotAProof(doc))
    } else if includes.len() == 0 || conclusions.len() == 0 {
        Err(ProofFailure::MissingConclusionIncludes(doc))
    } else if premises_outcome(g, includes, g) is Err {
        premises_outcome(g, includes, g)
    } else {
        conclusions_outcome(g, conclusions)
    }
}

/// What `verify_proof` returns for the document `doc` of the graph `g`.
pub open spec fn verify_post(g: Seq<TripleView>, doc: Seq<char>, v: Result<(), ProofFailure>) -> bool {
    if iri_is_valid(doc) {
        v == proof_outcome(g, doc)
    } else {
        v == Err::<(), ProofFailure>(ProofFailure::InvalidIri(doc))
    }
}

/// Checks the premises in order against `kb`; stops at the first that fails.
pub fn check_premises(graph: &Graph, includes: &Vec<String>, kb: &Graph) -> (r: Result<
    (),
    ProofCheckError,
>)
    ensures
        verdict_view(r) == premises_outcome(graph@, strings(includes@), kb@),
{
    let ghost all = strings(includes@);
    assert(all.subrange(0, all.len() as int) =~= all);
    let mut i: usize = 0;
    while i < includes.len()
        invariant
            i <= includes@.len(),
            all == strings(includes@),
            premises_outcome(graph@, all, kb@) == premises_outcome(
                graph@,
                all.subrange(i as int, all.len() as int),
                kb@,
            ),
        decreases includes@.len() - i,
    {
        let ghost rest = all.subrange(i as int, all.len() as int);
        assert(rest.drop_first() =~= all.subrange(i + 1, all.len() as int));
        assert(rest[0] == includes@[i as int]@);
        match check_assertions(graph, includes[i].as_str(), kb) {
            Ok(()) => {},
            Err(e) => {
                return Err(e);
            },
        }
        i += 1;
    }
    assert(all.subrange(i as int, all.len() as int) =~= Seq::<Seq<char>>::empty());
    Ok(())
}

/// Resolves the conclusions in order, growing `kb` with what they derive;
/// stops at the first conclusion that no rule leads to.
pub fn check_conclusions(graph: &Graph, conclusions: &Vec<String>, kb: &mut Graph) -> (r: Result<
    (),
    ProofCheckError,
>)
    ensures
        verdict_view(r) == conclusions_outcome(graph@, strings(conclusions@)),
        r is Ok ==> final(kb)@ == derived_kb(graph@, strings(conclusions@), old(kb)@),
        forall|t: TripleView| old(kb)@.contains(t) ==> final(kb)@.contains(t),
        old(kb).wf() ==> final(kb).wf(),
{
    let ghost all = strings(conclusions@);
    assert(all.subrange(0, all.len() as int) =~= all);
    let mut i: usize = 0;
    while i < conclusions.len()
        invariant
            i <= conclusions@.len(),
            all == strings(conclusions@),
            conclusions_outcome(graph@, all) == conclusions_outcome(
                graph@,
                all.subrange(i as int, all.len() as int),
            ),
            derived_kb(graph@, all, old(kb)@) == derived_kb(
                graph@,
                all.subrange(i as int, all.len() as int),
                kb@,
            ),
            forall|t: TripleView| old(kb)@.contains(t) ==> kb@.contains(t),
            old(kb).wf() ==> kb.wf(),
        decreases conclusions@.len() - i,
    {
        let ghost rest = all.subrange(i as int, all.len() as int);
        assert(rest.drop_first() =~= all.subrange(i + 1, all.len() as int));
        assert(rest[0] == conclusions@[i as int]@);
        match check_implications(graph, conclusions[i].as_str(), kb) {
            Ok(()) => {},
            Err(e) => {
                return Err(e);
            },
        }
        i += 1;
    }
    assert(all.subrange(i as int, all.len() as int) =~= Seq::<Seq<char>>::empty());
    Ok(())
}

/// Verifies the proof document whose IRI is `doc_iri`, taken as a valid IRI:
/// the type check, then the premises against a copy of the graph, then the
/// conclusions, which grow that copy with what they derive.
pub fn verify_proof_document(graph: &Graph, doc_iri: &str) -> (r: Result<(), ProofCheckError>)
    ensures
        verdict_view(r) == proof_outcome(graph@, doc_iri@),
{
    match ensure_is_log_proof(graph, doc_iri) {
        Ok(()) => {},
        Err(e) => {
            return Err(e);
        },
    }
    let includes_iris = get_named_objects_for_predicate(graph, doc_iri, LOG_INCLUDES);
    let conclusion_iris = get_named_objects_for_predicate(graph, doc_iri, LOG_CONCLUSION);
    if includes_iris.len() == 0 || conclusion_iris.len() == 0 {
        return Err(ProofCheckError::MissingConclusionIncludes(String::from_str(doc_iri)));
    }
    let mut kb = graph.duplicate();
    match check_premises(graph, &includes_iris, &kb) {
        Ok(()) => {},
        Err(e) => {
            return Err(e);
        },
    }
    check_conclusions(graph, &conclusion_iris, &mut kb)
}

/// Verifies the proof document `doc_iri` of `graph`: the IRI must be valid,
/// and then `verify_proof_document` decides.
pub fn verify_proof(graph: &Graph, doc_iri: &str) -> (r: Result<(), ProofCheckError>)
    ensures
        verify_post(graph@, doc_iri@, verdict_view(r)),
{
    if !is_valid_iri(doc_iri) {
        return Err(ProofCheckError::InvalidIri(String::from_str(doc_iri)));
    }
    verify_proof_document(graph, doc_iri)
}

} // verus!
