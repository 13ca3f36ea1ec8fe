//! Laws of the extraction pipeline, stated on their own so a reader sees
//! them without piecing them together from the extractors' contracts.

use vstd::prelude::*;
use crate::model::{ExerciseView, TopicView, concat_texts, row_id, row_title, spec_exercise_of_row,
    spec_topic_of_listing};
use crate::ExtractError;

verus! {

/// *Extraction absence*: a row whose extracted identifier and title are both
/// empty yields no record — absence, not an error. (A row whose input
/// control lacks its `value` attribute is excluded: that row is malformed
/// and errors instead.)
pub proof fn lemma_row_absence(n: (Option<Option<Seq<char>>>, Option<Option<Seq<char>>>))
    requires
        !(n.0 matches Some(None)),
        row_id(n).len() == 0,
        row_title(n).len() == 0,
    ensures
        spec_exercise_of_row(n) == Ok::<Option<ExerciseView>, ExtractError>(None),
{
}

/// *Extraction absence*: a listing element that carries its `id` attribute
/// but whose id and concatenated heading text are both empty yields no
/// record — absence, not an error.
pub proof fn lemma_listing_absence(n: (Option<Seq<char>>, Seq<Seq<char>>))
    requires
        n.0 matches Some(id) && id.len() == 0,
        concat_texts(n.1).len() == 0,
    ensures
        spec_topic_of_listing(n) == Ok::<Option<TopicView>, ExtractError>(None),
{
}

/// *Extraction is a pure function of its input*: the exercise extractor's
/// contract pins its result to `spec_exercise_of_row` of the flattened row,
/// so any two results it may return for the same row are equal.
pub proof fn lemma_exercise_extraction_deterministic(
    n: (Option<Option<Seq<char>>>, Option<Option<Seq<char>>>),
    r1: Result<Option<ExerciseView>, ExtractError>,
    r2: Result<Option<ExerciseView>, ExtractError>,
)
    requires
        r1 == spec_exercise_of_row(n),
        r2 == spec_exercise_of_row(n),
    ensures
        r1 == r2,
{
}

/// *Extraction is a pure function of its input*: likewise for the topic
/// extractor and `spec_topic_of_listing`.
pub proof fn lemma_topic_extraction_deterministic(
    n: (Option<Seq<char>>, Seq<Seq<char>>),
    r1: Result<Option<TopicView>, ExtractError>,
    r2: Result<Option<TopicView>, ExtractError>,
)
    requires
        r1 == spec_topic_of_listing(n),
        r2 == spec_topic_of_listing(n),
    ensures
        r1 == r2,
{
}

} // verus!
