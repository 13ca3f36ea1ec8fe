use aufgabenpool::html::{ListingNode, RowNode};
use aufgabenpool::link::build_link;
use aufgabenpool::model::{file_name, Exercise, Topic};
use aufgabenpool::order::{correct_order, problem_id_str};
use aufgabenpool::ExtractError;

const BASE: &str = "https://prod.aufgabenpool.at/srdp/createpdf.php?coll=";

fn row(input_value: Option<Option<&str>>, cell_text: Option<Option<&str>>) -> RowNode {
    RowNode {
        input_value: input_value.map(|v| v.map(String::from)),
        cell_text: cell_text.map(|t| t.map(String::from)),
    }
}

fn exercise(id: &str, title: &str) -> Exercise {
    Exercise {
        id: String::from(id),
        title: String::from(title),
    }
}

#[test]
fn row_without_control_and_cell_yields_no_record() {
    assert!(matches!(Exercise::new(&row(None, None)), Ok(None)));
}

#[test]
fn row_with_empty_id_and_empty_title_yields_no_record() {
    let r = Exercise::new(&row(Some(Some("")), Some(Some(""))));
    assert!(matches!(r, Ok(None)));
}

#[test]
fn row_with_control_but_no_value_attribute_is_malformed() {
    let r = Exercise::new(&row(Some(None), Some(Some("A title"))));
    assert!(matches!(r, Err(ExtractError::MissingExerciseValue)));
}

#[test]
fn row_fields_are_extracted_verbatim() {
    let r = Exercise::new(&row(Some(Some("teila;X;1")), Some(Some("Vectors"))));
    let e = r.unwrap().unwrap();
    assert_eq!(e.id, "teila;X;1");
    assert_eq!(e.title, "Vectors");
}

#[test]
fn row_with_only_a_title_is_kept() {
    let r = Exercise::new(&row(None, Some(Some("Heading row"))));
    let e = r.unwrap().unwrap();
    assert_eq!(e.id, "");
    assert_eq!(e.title, "Heading row");
}

#[test]
fn extraction_is_deterministic() {
    let n = row(Some(Some("teila;X;1")), Some(Some("Vectors")));
    let a = Exercise::new(&n).unwrap().unwrap();
    let b = Exercise::new(&n).unwrap().unwrap();
    assert_eq!(a.id, b.id);
    assert_eq!(a.title, b.title);
}

#[test]
fn listing_without_id_attribute_is_malformed() {
    let n = ListingNode {
        id_attr: None,
        heading_texts: vec![String::from("Algebra")],
    };
    assert!(matches!(Topic::new(&n), Err(ExtractError::MissingTopicId)));
}

#[test]
fn listing_with_empty_id_and_empty_heading_yields_no_record() {
    let n = ListingNode {
        id_attr: Some(String::new()),
        heading_texts: vec![],
    };
    assert!(matches!(Topic::new(&n), Ok(None)));
}

#[test]
fn listing_title_concatenates_heading_fragments() {
    let n = ListingNode {
        id_attr: Some(String::from("T7")),
        heading_texts: vec![String::from("Line"), String::from("ar "), String::from("maps")],
    };
    let t = Topic::new(&n).unwrap().unwrap();
    assert_eq!(t.id, "T7");
    assert_eq!(t.title, "Linear maps");
    assert_eq!(t.pdf_link, "");
    assert!(t.exercises.is_empty());
}

#[test]
fn correction_moves_the_problem_exercise_to_the_end() {
    let v = vec![
        exercise("first", "F"),
        exercise(problem_id_str(), "Liftgesellschaft"),
        exercise("third", "T"),
    ];
    let r = correct_order(v);
    let ids: Vec<&str> = r.iter().map(|e| e.id.as_str()).collect();
    assert_eq!(ids, vec!["first", "third", problem_id_str()]);
}

#[test]
fn correction_leaves_other_sequences_unchanged() {
    let v = vec![exercise("a", "A"), exercise("b", "B"), exercise("c", "C")];
    let r = correct_order(v);
    let ids: Vec<&str> = r.iter().map(|e| e.id.as_str()).collect();
    assert_eq!(ids, vec!["a", "b", "c"]);
}

#[test]
fn correction_triggers_on_exact_match_only() {
    let near_miss = &problem_id_str()[..problem_id_str().len() - 1];
    let v = vec![exercise(near_miss, "N"), exercise("z", "Z")];
    let r = correct_order(v);
    let ids: Vec<&str> = r.iter().map(|e| e.id.as_str()).collect();
    assert_eq!(ids, vec![near_miss, "z"]);
}

#[test]
fn empty_link_is_the_bare_base_url() {
    assert_eq!(build_link(&vec![]), BASE);
}

#[test]
fn link_prefixes_each_identifier_with_a_colon_in_order() {
    let ids = vec![String::from("A"), String::from("B")];
    assert_eq!(build_link(&ids), format!("{}:A:B", BASE));
}

#[test]
fn link_depends_on_identifier_order() {
    let ab = vec![String::from("A"), String::from("B")];
    let ba = vec![String::from("B"), String::from("A")];
    assert_ne!(build_link(&ab), build_link(&ba));
}

#[test]
fn short_titles_keep_their_full_stem() {
    assert_eq!(file_name("Algebra"), "Algebra.pdf");
}

#[test]
fn file_name_truncates_to_thirteen_characters_not_bytes() {
    let title = "äöüßéàèìòùαβγδε";
    assert_eq!(title.chars().count(), 15);
    let name = file_name(title);
    assert_eq!(name, "äöüßéàèìòùαβγ.pdf");
    let stem = name.strip_suffix(".pdf").unwrap();
    assert_eq!(stem.chars().count(), 13);
}

#[test]
fn exercise_text_quotes_both_fields() {
    let e = exercise("teila;X;1", "Vectors");
    assert_eq!(e.to_text(), "{id=\"teila;X;1\", title=\"Vectors\"}");
}

#[test]
fn topic_text_lists_each_exercise_on_its_own_line() {
    let t = Topic {
        id: String::from("T1"),
        title: String::from("Algebra"),
        pdf_link: String::new(),
        exercises: vec![exercise("x", "X")],
    };
    assert_eq!(
        t.to_text(),
        "{id=\"T1\",\ntitle=\"Algebra\",\nexercises={\n{id=\"x\", title=\"X\"},}"
    );
}
