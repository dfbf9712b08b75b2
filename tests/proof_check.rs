use n3_proof::check::{
    check_assertions, check_implications, ensure_is_log_proof, get_named_objects_for_predicate,
    LOG_CONCLUSION, LOG_IMPLIES, LOG_INCLUDES, LOG_PROOF, RDF_TYPE,
};
use n3_proof::document::{verify_proof_document, check_premises};
use n3_proof::formula::extract_formula;
use n3_proof::unify::{unify_term, unify_triples};
use n3_proof::{verify_proof, Graph, Literal, N3Formula, ProofCheckError, Term, Triple};

fn named(iri: &str) -> Term {
    Term::NamedNode(iri.to_string())
}

fn blank(id: &str) -> Term {
    Term::BlankNode(id.to_string())
}

fn literal(value: &str, datatype: &str, language: Option<&str>) -> Term {
    Term::Literal(Literal {
        value: value.to_string(),
        datatype: datatype.to_string(),
        language: language.map(|l| l.to_string()),
    })
}

fn triple(s: Term, p: Term, o: Term) -> Triple {
    Triple::new(s, p, o)
}

const DOC: &str = "http://example.org/myProof";
const INCLUDES_F: &str = "http://example.org/includesFormula";
const CONCLUSION_F: &str = "http://example.org/conclusionFormula";
const KNOWS: &str = "http://example.org/knows";
const FRIENDS: &str = "http://example.org/friendsWith";
const BOB: &str = "http://example.org/Bob";
const XSD_STRING: &str = "http://www.w3.org/2001/XMLSchema#string";

/// The document of the basic example: one premise, one conclusion and a rule
/// from the premise to the conclusion.
fn basic_graph() -> Graph {
    let mut graph = Graph::new();
    graph.insert(triple(named(DOC), named(RDF_TYPE), named(LOG_PROOF)));
    graph.insert(triple(named(DOC), named(LOG_INCLUDES), named(INCLUDES_F)));
    graph.insert(triple(named(INCLUDES_F), named(KNOWS), named(BOB)));
    graph.insert(triple(named(DOC), named(LOG_CONCLUSION), named(CONCLUSION_F)));
    graph.insert(triple(named(CONCLUSION_F), named(FRIENDS), named(BOB)));
    graph.insert(triple(named(INCLUDES_F), named(LOG_IMPLIES), named(CONCLUSION_F)));
    graph
}

fn kb_triples(g: &Graph) -> Vec<Triple> {
    (0..g.len()).map(|i| g.triple(i).clone()).collect()
}

#[test]
fn test_basic_proof_verification() {
    let graph = basic_graph();
    let result = verify_proof(&graph, DOC);
    assert!(result.is_ok());
}

#[test]
fn test_proof_fails_when_includes_are_not_satisfied() {
    let mut graph = Graph::new();
    graph.insert(triple(named(DOC), named(RDF_TYPE), named(LOG_PROOF)));
    graph.insert(triple(named(DOC), named(LOG_INCLUDES), named(INCLUDES_F)));
    graph.insert(triple(named(DOC), named(LOG_CONCLUSION), named(CONCLUSION_F)));

    // The included formula has no statements, so it holds vacuously; the
    // verdict is a failure because no rule derives the conclusion.
    let result = verify_proof(&graph, DOC);
    assert!(result.is_err());
    if let Err(ProofCheckError::ImplicationFailure(msg)) = result {
        assert!(msg.contains("No log:implies found deriving"));
        assert!(msg.contains(CONCLUSION_F));
    } else {
        panic!("Expected ImplicationFailure error");
    }
}

#[test]
fn unsatisfied_premise_against_a_knowledge_base_is_an_assertion_failure() {
    let graph = basic_graph();
    let kb = Graph::new();
    match check_assertions(&graph, INCLUDES_F, &kb) {
        Err(ProofCheckError::AssertionFailure(msg)) => {
            assert!(msg.contains("not satisfied"));
            assert_eq!(msg, format!("Formula <{}> not satisfied by current KB", INCLUDES_F));
        }
        other => panic!("expected an assertion failure, got {:?}", other),
    }
}

#[test]
fn premise_present_verbatim_succeeds_and_conclusion_is_derived() {
    let graph = basic_graph();
    assert!(verify_proof(&graph, DOC).is_ok());
    // The conclusion holds once the rule fired, and the knowledge base keeps
    // every triple it started with.
    let mut kb = graph.duplicate();
    let before = kb_triples(&kb);
    assert!(check_implications(&graph, CONCLUSION_F, &mut kb).is_ok());
    let after = kb_triples(&kb);
    assert!(before.iter().all(|t| after.contains(t)));
}

#[test]
fn premise_triple_missing_from_graph_leaves_an_empty_premise() {
    let mut graph = Graph::new();
    graph.insert(triple(named(DOC), named(RDF_TYPE), named(LOG_PROOF)));
    graph.insert(triple(named(DOC), named(LOG_INCLUDES), named(INCLUDES_F)));
    graph.insert(triple(named(DOC), named(LOG_CONCLUSION), named(CONCLUSION_F)));
    graph.insert(triple(named(CONCLUSION_F), named(FRIENDS), named(BOB)));
    graph.insert(triple(named(INCLUDES_F), named(LOG_IMPLIES), named(CONCLUSION_F)));
    // The premise formula is empty and holds vacuously.
    assert!(verify_proof(&graph, DOC).is_ok());
}

#[test]
fn conclusion_without_rule_is_an_implication_failure() {
    let mut graph = basic_graph();
    let mut without_rule = Graph::new();
    for t in kb_triples(&graph) {
        if t.predicate != named(LOG_IMPLIES) {
            without_rule.insert(t);
        }
    }
    graph = without_rule;
    match verify_proof(&graph, DOC) {
        Err(ProofCheckError::ImplicationFailure(msg)) => {
            assert_eq!(msg, format!("No log:implies found deriving <{}>", CONCLUSION_F));
        }
        other => panic!("expected an implication failure, got {:?}", other),
    }
}

#[test]
fn document_without_proof_type_is_not_a_proof() {
    let mut graph = Graph::new();
    graph.insert(triple(named(DOC), named(LOG_INCLUDES), named(INCLUDES_F)));
    graph.insert(triple(named(DOC), named(LOG_CONCLUSION), named(CONCLUSION_F)));
    graph.insert(triple(named(INCLUDES_F), named(LOG_IMPLIES), named(CONCLUSION_F)));
    match verify_proof(&graph, DOC) {
        Err(ProofCheckError::NotAProof(iri)) => assert_eq!(iri, DOC),
        other => panic!("expected NotAProof, got {:?}", other),
    }
    assert!(ensure_is_log_proof(&graph, DOC).is_err());
}

#[test]
fn document_without_conclusion_is_missing_conclusion_includes() {
    let mut graph = Graph::new();
    graph.insert(triple(named(DOC), named(RDF_TYPE), named(LOG_PROOF)));
    graph.insert(triple(named(DOC), named(LOG_INCLUDES), named(INCLUDES_F)));
    graph.insert(triple(named(INCLUDES_F), named(KNOWS), named(BOB)));
    match verify_proof(&graph, DOC) {
        Err(ProofCheckError::MissingConclusionIncludes(iri)) => assert_eq!(iri, DOC),
        other => panic!("expected MissingConclusionIncludes, got {:?}", other),
    }
}

#[test]
fn document_without_includes_is_missing_conclusion_includes() {
    let mut graph = Graph::new();
    graph.insert(triple(named(DOC), named(RDF_TYPE), named(LOG_PROOF)));
    graph.insert(triple(named(DOC), named(LOG_CONCLUSION), named(CONCLUSION_F)));
    assert!(matches!(
        verify_proof(&graph, DOC),
        Err(ProofCheckError::MissingConclusionIncludes(_))
    ));
}

#[test]
fn literal_includes_object_is_dropped() {
    let mut graph = Graph::new();
    graph.insert(triple(named(DOC), named(RDF_TYPE), named(LOG_PROOF)));
    graph.insert(triple(named(DOC), named(LOG_INCLUDES), literal("x", XSD_STRING, None)));
    graph.insert(triple(named(DOC), named(LOG_CONCLUSION), named(CONCLUSION_F)));
    assert!(matches!(
        verify_proof(&graph, DOC),
        Err(ProofCheckError::MissingConclusionIncludes(_))
    ));
    assert!(get_named_objects_for_predicate(&graph, DOC, LOG_INCLUDES).is_empty());
    assert_eq!(
        get_named_objects_for_predicate(&graph, DOC, LOG_CONCLUSION),
        vec![CONCLUSION_F.to_string()]
    );
}

#[test]
fn invalid_document_iri_is_rejected() {
    let graph = basic_graph();
    match verify_proof(&graph, "not an iri") {
        Err(ProofCheckError::InvalidIri(s)) => assert_eq!(s, "not an iri"),
        other => panic!("expected InvalidIri, got {:?}", other),
    }
    // The same document passes once it is named by a valid IRI.
    assert!(verify_proof_document(&graph, DOC).is_ok());
}

#[test]
fn blank_object_in_premise_matches_object_of_another_kind() {
    let mut graph = Graph::new();
    graph.insert(triple(named(DOC), named(RDF_TYPE), named(LOG_PROOF)));
    graph.insert(triple(named(DOC), named(LOG_INCLUDES), named(INCLUDES_F)));
    graph.insert(triple(named(INCLUDES_F), named(KNOWS), blank("b0")));
    let formula = extract_formula(&graph, INCLUDES_F);
    let mut kb = Graph::new();
    kb.insert(triple(named(INCLUDES_F), named(KNOWS), literal("Bob", XSD_STRING, None)));
    assert!(formula.is_satisfied_by(&kb));
    assert!(check_assertions(&graph, INCLUDES_F, &kb).is_ok());
    let mut other_predicate = Graph::new();
    other_predicate.insert(triple(named(INCLUDES_F), named(FRIENDS), literal("Bob", XSD_STRING, None)));
    assert!(!formula.is_satisfied_by(&other_predicate));
}

#[test]
fn empty_formula_is_satisfied_by_any_kb() {
    let f = N3Formula { triples: vec![] };
    assert!(f.is_satisfied_by(&Graph::new()));
    assert!(f.is_satisfied_by(&basic_graph()));
}

#[test]
fn blank_positions_match_anything() {
    let t = triple(blank("s"), named(KNOWS), blank("o"));
    let u = triple(named(BOB), named(KNOWS), literal("5", "http://www.w3.org/2001/XMLSchema#integer", None));
    assert!(unify_triples(&t, &u));
    assert!(unify_triples(&u, &t));
    let v = triple(named(BOB), named(FRIENDS), named(BOB));
    assert!(!unify_triples(&t, &v));
    let w = triple(named(BOB), blank("p"), named(BOB));
    assert!(unify_triples(&w, &v));
}

#[test]
fn term_matching_rules() {
    assert!(unify_term(&named(BOB), &named(BOB)));
    assert!(!unify_term(&named(BOB), &named(KNOWS)));
    assert!(unify_term(&blank("a"), &named(BOB)));
    assert!(unify_term(&named(BOB), &blank("a")));
    assert!(unify_term(&blank("a"), &blank("b")));
    assert!(!unify_term(&named(BOB), &literal(BOB, XSD_STRING, None)));
    assert!(unify_term(&literal("x", XSD_STRING, None), &literal("x", XSD_STRING, None)));
    assert!(!unify_term(&literal("x", XSD_STRING, None), &literal("y", XSD_STRING, None)));
    assert!(!unify_term(
        &literal("x", XSD_STRING, None),
        &literal("x", "http://www.w3.org/2001/XMLSchema#token", None)
    ));
    assert!(!unify_term(
        &literal("x", XSD_STRING, Some("en")),
        &literal("x", XSD_STRING, Some("fr"))
    ));
    assert!(!unify_term(&literal("x", XSD_STRING, Some("en")), &literal("x", XSD_STRING, None)));
}

#[test]
fn extract_formula_takes_triples_with_that_subject_only() {
    let graph = basic_graph();
    let f = extract_formula(&graph, INCLUDES_F);
    assert_eq!(
        f.triples,
        vec![
            triple(named(INCLUDES_F), named(KNOWS), named(BOB)),
            triple(named(INCLUDES_F), named(LOG_IMPLIES), named(CONCLUSION_F)),
        ]
    );
    assert!(extract_formula(&graph, "http://example.org/none").triples.is_empty());
}

#[test]
fn knowledge_base_grows_and_reresolving_changes_nothing() {
    let graph = basic_graph();
    // The antecedent formula holds every triple whose subject is its anchor,
    // the implication edge included.
    let mut kb = Graph::new();
    kb.insert(triple(named(INCLUDES_F), named(KNOWS), named(BOB)));
    kb.insert(triple(named(INCLUDES_F), named(LOG_IMPLIES), named(CONCLUSION_F)));
    assert!(check_implications(&graph, CONCLUSION_F, &mut kb).is_ok());
    let once = kb_triples(&kb);
    assert_eq!(
        once,
        vec![
            triple(named(INCLUDES_F), named(KNOWS), named(BOB)),
            triple(named(INCLUDES_F), named(LOG_IMPLIES), named(CONCLUSION_F)),
            triple(named(CONCLUSION_F), named(FRIENDS), named(BOB)),
        ]
    );
    assert!(check_implications(&graph, CONCLUSION_F, &mut kb).is_ok());
    assert_eq!(kb_triples(&kb), once);
}

#[test]
fn unsatisfied_antecedent_derives_nothing() {
    let graph = basic_graph();
    let mut kb = Graph::new();
    kb.insert(triple(named(BOB), named(KNOWS), named(BOB)));
    assert!(check_implications(&graph, CONCLUSION_F, &mut kb).is_ok());
    assert_eq!(kb_triples(&kb), vec![triple(named(BOB), named(KNOWS), named(BOB))]);
}

#[test]
fn blank_antecedent_is_skipped() {
    let mut graph = Graph::new();
    graph.insert(triple(blank("r"), named(LOG_IMPLIES), named(CONCLUSION_F)));
    graph.insert(triple(named(CONCLUSION_F), named(FRIENDS), named(BOB)));
    let mut kb = Graph::new();
    assert!(check_implications(&graph, CONCLUSION_F, &mut kb).is_ok());
    assert_eq!(kb.len(), 0);
}

#[test]
fn premise_order_does_not_change_the_outcome() {
    let mut graph = basic_graph();
    let second = "http://example.org/second";
    graph.insert(triple(named(second), named(KNOWS), named(DOC)));
    let kb = Graph::new();
    let ab = vec![INCLUDES_F.to_string(), second.to_string()];
    let ba = vec![second.to_string(), INCLUDES_F.to_string()];
    assert_eq!(check_premises(&graph, &ab, &kb).is_ok(), check_premises(&graph, &ba, &kb).is_ok());
    assert!(check_premises(&graph, &ab, &graph).is_ok());
    assert!(check_premises(&graph, &ba, &graph).is_ok());
}

#[test]
fn verifying_twice_gives_the_same_verdict() {
    let graph = basic_graph();
    assert_eq!(
        format!("{:?}", verify_proof(&graph, DOC)),
        format!("{:?}", verify_proof(&graph, DOC))
    );
    let bad = Graph::new();
    assert_eq!(
        format!("{:?}", verify_proof(&bad, DOC)),
        format!("{:?}", verify_proof(&bad, DOC))
    );
}

#[test]
fn graph_keeps_triples_distinct() {
    let mut g = Graph::new();
    assert!(g.insert(triple(named(BOB), named(KNOWS), named(BOB))));
    assert!(!g.insert(triple(named(BOB), named(KNOWS), named(BOB))));
    assert_eq!(g.len(), 1);
    assert!(g.contains(&triple(named(BOB), named(KNOWS), named(BOB))));
    assert!(!g.contains(&triple(named(BOB), named(FRIENDS), named(BOB))));
}

#[test]
fn error_messages() {
    assert_eq!(
        ProofCheckError::NotAProof(DOC.to_string()).message(),
        format!("Document <{}> is not recognized as a log:Proof.", DOC)
    );
    assert_eq!(ProofCheckError::InvalidIri("x".to_string()).message(), "Invalid IRI: x");
    assert_eq!(
        ProofCheckError::MissingConclusionIncludes(DOC.to_string()).message(),
        format!("Missing log:conclusion or log:includes in <{}>", DOC)
    );
}

#[test]
fn invalid_predicate_iri_gives_no_objects() {
    let mut graph = Graph::new();
    graph.insert(triple(named(DOC), named("not an iri"), named(BOB)));
    assert!(get_named_objects_for_predicate(&graph, DOC, "not an iri").is_empty());
    graph.insert(triple(named(DOC), named(KNOWS), named(BOB)));
    assert_eq!(get_named_objects_for_predicate(&graph, DOC, KNOWS), vec![BOB.to_string()]);
}
