use mcgill_courses::listing::Requirements;
use mcgill_courses::parse::{
    extract_requirements, identifiers, parse_tokens, read_requirements, tokenize, Token,
};
use mcgill_courses::requirement::ReqNode;

fn id(text: &str) -> ReqNode {
    ReqNode::Identifier(text.to_string())
}

fn read(text: &str) -> (Vec<String>, ReqNode, String) {
    let r = extract_requirements(text);
    (r.ids, r.tree, r.raw_text)
}

fn unread(text: &str) -> (Vec<String>, ReqNode, String) {
    (vec![], id(text), text.to_string())
}

#[test]
fn a_statement_is_read_into_an_expression() {
    let text = "Prerequisite: COMP 250 and (MATH 240 or MATH235)";
    assert_eq!(
        read(text),
        (
            vec!["COMP250".to_string(), "MATH240".to_string(), "MATH235".to_string()],
            ReqNode::And(vec![id("COMP250"), ReqNode::Or(vec![id("MATH240"), id("MATH235")])]),
            text.to_string()
        )
    );
}

#[test]
fn a_single_identifier_stands_for_itself() {
    assert_eq!(read("COMP 202"), (vec!["COMP202".to_string()], id("COMP202"), "COMP 202".to_string()));
    assert_eq!(read("  (COMP202D1)\n"), (vec!["COMP202D1".to_string()], id("COMP202D1"), "  (COMP202D1)\n".to_string()));
    assert_eq!(read("COMP\t 202."), (vec!["COMP202".to_string()], id("COMP202"), "COMP\t 202.".to_string()));
}

#[test]
fn operators_bind_in_order() {
    let (ids, tree, _) = read("COMP 250 or COMP 251 AND Not MATH 240 or COMP 250.");
    assert_eq!(ids, vec!["COMP250".to_string(), "COMP251".to_string(), "MATH240".to_string()]);
    assert_eq!(
        tree,
        ReqNode::Or(vec![
            id("COMP250"),
            ReqNode::And(vec![id("COMP251"), ReqNode::Not(Box::new(id("MATH240")))]),
            id("COMP250"),
        ])
    );
    let (_, tree, _) = read("not not (COMP 250 and COMP 251 and COMP 252)");
    assert_eq!(
        tree,
        ReqNode::Not(Box::new(ReqNode::Not(Box::new(ReqNode::And(vec![
            id("COMP250"),
            id("COMP251"),
            id("COMP252")
        ])))))
    );
}

#[test]
fn statements_outside_the_grammar_are_kept_as_written() {
    for text in [
        "",
        "   ",
        "Permission of instructor",
        "COMP 250, COMP 251",
        "COMP 250 and",
        "and COMP 250",
        "(COMP 250",
        "COMP 250)",
        "COMP 250 COMP 251",
        "COMP",
        "COMP (202)",
        "comp 202",
        "COMP 20",
        "COMP 202d1",
        "COMPS 202",
        "202",
        "()",
        "not",
        "Prerequisite: COMP 250: or more",
        "COMP 250 &amp; COMP 251",
    ] {
        assert_eq!(read(text), unread(text));
    }
}

#[test]
fn a_heading_ends_at_the_first_colon() {
    assert_eq!(read("Prerequisite(s): COMP 250").1, id("COMP250"));
    assert_eq!(read("anything at all, even (: COMP 250").1, id("COMP250"));
    assert_eq!(read(":COMP 250").1, id("COMP250"));
    assert_eq!(read("COMP 250:"), unread("COMP 250:"));
}

#[test]
fn tokens_of_a_statement() {
    assert_eq!(
        tokenize("x COMP 202 oR(NOT MATH240)", 1),
        Some(vec![
            Token::Id("COMP202".to_string()),
            Token::Or,
            Token::Open,
            Token::Not,
            Token::Id("MATH240".to_string()),
            Token::Close
        ])
    );
    assert_eq!(tokenize("COMP 202", 8), Some(vec![]));
    assert_eq!(tokenize("COMP 202", 100), Some(vec![]));
    assert_eq!(tokenize("COMP 202", 1), None);
    assert_eq!(tokenize("é COMP 202 é", 1), None);
    assert_eq!(tokenize("é COMP 202", 1), Some(vec![Token::Id("COMP202".to_string())]));
    let tokens = vec![Token::Id("A".to_string()), Token::And, Token::Id("B".to_string()), Token::And, Token::Id("A".to_string())];
    assert_eq!(identifiers(&tokens), vec!["A".to_string(), "B".to_string()]);
    assert_eq!(parse_tokens(&tokens), Some(ReqNode::And(vec![id("A"), id("B"), id("A")])));
    assert_eq!(parse_tokens(&vec![]), None);
    assert_eq!(parse_tokens(&vec![Token::Open, Token::Close]), None);
}

#[test]
fn requirements_of_a_course_page() {
    assert_eq!(read_requirements(None, None, None), Requirements::default());
    assert_eq!(
        read_requirements(
            Some("Prerequisite: COMP 250".to_string()),
            Some("Ask the department".to_string()),
            Some("Not open to all".to_string())
        ),
        Requirements {
            prerequisites_text: Some("Prerequisite: COMP 250".to_string()),
            corequisites_text: Some("Ask the department".to_string()),
            prerequisites: vec!["COMP250".to_string()],
            corequisites: vec![],
            restrictions: Some("Not open to all".to_string()),
            logical_prerequisites: Some(id("COMP250")),
            logical_corequisites: Some(id("Ask the department")),
        }
    );
}
