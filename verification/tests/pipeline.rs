//! Runs the extraction pipeline over real markup, through the scraper-backed
//! selection boundary, end to end.

use aufgabenpool::model::{extract_exercises, extract_topics, Topics};
use aufgabenpool::html::{select_exercise_rows, select_topic_listings};
use aufgabenpool::order::problem_id_str;
use aufgabenpool::ExtractError;

const BASE: &str = "https://prod.aufgabenpool.at/srdp/createpdf.php?coll=";

fn index_page() -> String {
    String::from(
        "<html><body><ul>\
         <li><div id=\"T1\"><h3>Algebra</h3></div></li>\
         <li><div id=\"\"><h3></h3></div></li>\
         </ul></body></html>",
    )
}

fn exercise_page(second_id: &str) -> String {
    format!(
        "<html><body><ul><li><div><table><tbody>\
         <tr><td><input value=\"id1\">One</td></tr>\
         <tr><td><input value=\"{}\">Two</td></tr>\
         <tr><td><input value=\"id3\">Three</td></tr>\
         </tbody></table></div></li></ul></body></html>",
        second_id
    )
}

#[test]
fn index_page_yields_exactly_the_well_formed_topic() {
    let mut topics = Topics::new();
    topics.load_topics(&index_page()).unwrap();
    assert_eq!(topics.topics.len(), 1);
    assert_eq!(topics.topics[0].id, "T1");
    assert_eq!(topics.topics[0].title, "Algebra");
    assert!(topics.topics[0].exercises.is_empty());
    assert_eq!(topics.topics[0].pdf_link, "");
}

#[test]
fn catalogue_and_link_build_end_to_end() {
    let mut topics = Topics::new();
    topics.load_topics(&index_page()).unwrap();

    let topic = &mut topics.topics[0];
    topic.load_exercises(&exercise_page(problem_id_str())).unwrap();

    let ids: Vec<&str> = topic.exercises.iter().map(|e| e.id.as_str()).collect();
    assert_eq!(ids, vec!["id1", "id3", problem_id_str()]);
    let titles: Vec<&str> = topic.exercises.iter().map(|e| e.title.as_str()).collect();
    assert_eq!(titles, vec!["One", "Three", "Two"]);

    topic.load_pdf_link();
    assert_eq!(
        topic.pdf_link,
        format!("{}:id1:id3:{}", BASE, problem_id_str())
    );
}

#[test]
fn rows_keep_document_order_without_the_problem_identifier() {
    let mut topics = Topics::new();
    topics.load_topics(&index_page()).unwrap();
    let topic = &mut topics.topics[0];
    topic.load_exercises(&exercise_page("id2")).unwrap();
    let ids: Vec<&str> = topic.exercises.iter().map(|e| e.id.as_str()).collect();
    assert_eq!(ids, vec!["id1", "id2", "id3"]);
    topic.load_pdf_link();
    assert_eq!(topic.pdf_link, format!("{}:id1:id2:id3", BASE));
}

#[test]
fn a_control_without_value_attribute_aborts_the_load() {
    let markup = "<html><body><ul><li><div><table><tbody>\
                  <tr><td><input value=\"id1\">One</td></tr>\
                  <tr><td><input>Two</td></tr>\
                  </tbody></table></div></li></ul></body></html>";
    let mut topics = Topics::new();
    topics.load_topics(&index_page()).unwrap();
    let topic = &mut topics.topics[0];
    let r = topic.load_exercises(markup);
    assert!(matches!(r, Err(ExtractError::MissingExerciseValue)));
    assert!(topic.exercises.is_empty());
}

#[test]
fn selection_flattens_listing_elements() {
    let listings = select_topic_listings(&index_page());
    assert_eq!(listings.len(), 2);
    assert_eq!(listings[0].id_attr.as_deref(), Some("T1"));
    assert_eq!(listings[0].heading_texts, vec![String::from("Algebra")]);
    assert_eq!(listings[1].id_attr.as_deref(), Some(""));
    assert!(listings[1].heading_texts.is_empty());
}

#[test]
fn selection_flattens_rows() {
    let rows = select_exercise_rows(&exercise_page("id2"));
    assert_eq!(rows.len(), 3);
    assert_eq!(
        rows[0].input_value.as_ref().unwrap().as_deref(),
        Some("id1")
    );
    assert_eq!(rows[0].cell_text.as_ref().unwrap().as_deref(), Some("One"));
}

#[test]
fn structural_rows_without_exercises_are_skipped() {
    let markup = "<html><body><ul><li><div><table><tbody>\
                  <tr><td></td></tr>\
                  <tr><td><input value=\"only\">Only</td></tr>\
                  </tbody></table></div></li></ul></body></html>";
    let rows = select_exercise_rows(markup);
    let exercises = extract_exercises(&rows).unwrap();
    assert_eq!(exercises.len(), 1);
    assert_eq!(exercises[0].id, "only");
}

#[test]
fn listing_extraction_skips_non_topic_elements() {
    let listings = select_topic_listings(&index_page());
    let topics = extract_topics(&listings).unwrap();
    assert_eq!(topics.len(), 1);
    assert_eq!(topics[0].id, "T1");
}

#[test]
fn a_listing_without_id_attribute_aborts_the_catalogue() {
    let markup = "<html><body><ul>\
                  <li><div id=\"T1\"><h3>Algebra</h3></div></li>\
                  <li><div><h3>Geometry</h3></div></li>\
                  </ul></body></html>";
    let mut topics = Topics::new();
    let r = topics.load_topics(markup);
    assert!(matches!(r, Err(ExtractError::MissingTopicId)));
    assert!(topics.topics.is_empty());
}
