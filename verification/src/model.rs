//! The data model: exercises, topics and the topic catalogue, with the
//! extractors that build them from flattened document nodes.
//!
//! An extractor returns no record for a node whose relevant `id` and `title`
//! are both empty (absence, not an error), and fails when a structurally
//! required attribute is missing — the one policy applied uniformly to the
//! listing element's `id` attribute and the input control's `value` attribute.

use vstd::prelude::*;
use vstd::string::*;
use crate::html::{ListingNode, RowNode, exercise_rows, select_exercise_rows, select_topic_listings,
    topic_listings};
use crate::link::{build_link, link_of};
use crate::order::{corrected, correct_order};
use crate::ExtractError;

verus! {

/// The abstract value of an `Exercise`.
pub ghost struct ExerciseView {
    pub id: Seq<char>,
    pub title: Seq<char>,
}

/// The abstract value of a `Topic`.
pub ghost struct TopicView {
    pub id: Seq<char>,
    pub title: Seq<char>,
    pub pdf_link: Seq<char>,
    pub exercises: Seq<ExerciseView>,
}

/// One gradeable task of a topic. `id` is the opaque token the render
/// endpoint consumes; `title` is human-readable and not necessarily unique.
pub struct Exercise {
    pub id: String,
    pub title: String,
}

impl View for Exercise {
    type V = ExerciseView;

    open spec fn view(&self) -> ExerciseView {
        ExerciseView { id: self.id@, title: self.title@ }
    }
}

impl Clone for Exercise {
    fn clone(&self) -> (r: Exercise)
        ensures
            r == *self,
    {
        Exercise { id: self.id.clone(), title: self.title.clone() }
    }
}

/// One exam subject area: its stable identifier, its heading title, the
/// render-collection link derived from its final exercise order, and its
/// ordered exercises.
pub struct Topic {
    pub id: String,
    pub title: String,
    pub pdf_link: String,
    pub exercises: Vec<Exercise>,
}

impl View for Topic {
    type V = TopicView;

    open spec fn view(&self) -> TopicView {
        TopicView {
            id: self.id@,
            title: self.title@,
            pdf_link: self.pdf_link@,
            exercises: self.exercises@.map_values(|e: Exercise| e@),
        }
    }
}

/// The identifier a row carries: the `value` attribute of its first input
/// control, or empty when the row has no such control.
pub open spec fn row_id(n: (Option<Option<Seq<char>>>, Option<Option<Seq<char>>>)) -> Seq<char> {
    match n.0 {
        Some(Some(v)) => v,
        _ => Seq::empty(),
    }
}

/// The title a row carries: the first text node of its first cell, or empty.
pub open spec fn row_title(n: (Option<Option<Seq<char>>>, Option<Option<Seq<char>>>)) -> Seq<
    char,
> {
    match n.1 {
        Some(Some(t)) => t,
        _ => Seq::empty(),
    }
}

/// What extracting one exercise row yields: an error when the row's input
/// control lacks its `value` attribute, no record when both extracted fields
/// are empty, and the populated record otherwise.
pub open spec fn spec_exercise_of_row(
    n: (Option<Option<Seq<char>>>, Option<Option<Seq<char>>>),
) -> Result<Option<ExerciseView>, ExtractError> {
    if n.0 matches Some(None) {
        Err(ExtractError::MissingExerciseValue)
    } else if row_id(n).len() == 0 && row_title(n).len() == 0 {
        Ok(None)
    } else {
        Ok(Some(ExerciseView { id: row_id(n), title: row_title(n) }))
    }
}

/// The concatenation of a sequence of text fragments.
pub open spec fn concat_texts(ts: Seq<Seq<char>>) -> Seq<char>
    decreases ts.len(),
{
    if ts.len() == 0 {
        Seq::empty()
    } else {
        concat_texts(ts.drop_last()) + ts.last()
    }
}

/// What extracting one topic listing element yields: an error when the
/// element lacks its `id` attribute, no record when both the id and the
/// concatenated heading text are empty, and otherwise a topic whose exercises
/// and render link are still to be filled in.
pub open spec fn spec_topic_of_listing(n: (Option<Seq<char>>, Seq<Seq<char>>)) -> Result<
    Option<TopicView>,
    ExtractError,
> {
    match n.0 {
        None => Err(ExtractError::MissingTopicId),
        Some(id) => {
            let title = concat_texts(n.1);
            if id.len() == 0 && title.len() == 0 {
                Ok(None)
            } else {
                Ok(
                    Some(
                        TopicView {
                            id,
                            title,
                            pdf_link: Seq::empty(),
                            exercises: Seq::empty(),
                        },
                    ),
                )
            }
        },
    }
}

impl Exercise {
    /// Extracts one exercise from a flattened row, or reports its absence.
    pub fn new(node: &RowNode) -> (r: Result<Option<Exercise>, ExtractError>)
        ensures
            (match (r, spec_exercise_of_row(node@)) {
                (Ok(None), Ok(None)) => true,
                (Ok(Some(e)), Ok(Some(v))) => e@ == v,
                (Err(e1), Err(e2)) => e1 == e2,
                _ => false,
            }),
    {
        let id: String = match &node.input_value {
            Some(Some(v)) => v.clone(),
            Some(None) => {
                return Err(ExtractError::MissingExerciseValue);
            },
            None => String::new(),
        };
        let title: String = match &node.cell_text {
            Some(Some(t)) => t.clone(),
            _ => String::new(),
        };
        if id.as_str().is_empty() && title.as_str().is_empty() {
            Ok(None)
        } else {
            Ok(Some(Exercise { id, title }))
        }
    }

    /// Renders this exercise as text.
    pub fn to_text(&self) -> (r: String)
        ensures
            r@ == spec_exercise_text(self@),
    {
        let mut r = String::from_str("{id=\"");
        r.append(self.id.as_str());
        r.append("\", title=\"");
        r.append(self.title.as_str());
        r.append("\"}");
        r
    }
}

/// Concatenates text fragments in order.
fn concat_fragments(ts: &Vec<String>) -> (r: String)
    ensures
        r@ == concat_texts(ts@.map_values(|t: String| t@)),
{
    let ghost tv = ts@.map_values(|t: String| t@);
    let mut r = String::new();
    let mut i: usize = 0;
    while i < ts.len()
        invariant
            i <= ts.len(),
            tv == ts@.map_values(|t: String| t@),
            r@ == concat_texts(tv.take(i as int)),
        decreases ts.len() - i,
    {
        r.append(ts[i].as_str());
        proof {
            assert(tv.take(i + 1).drop_last() =~= tv.take(i as int));
            assert(tv.take(i + 1).last() == tv[i as int]);
        }
        i = i + 1;
    }
    proof {
        assert(tv.take(ts@.len() as int) =~= tv);
    }
    r
}

/// The textual rendering of one exercise.
pub open spec fn spec_exercise_text(e: ExerciseView) -> Seq<char> {
    "{id=\""@ + e.id + "\", title=\""@ + e.title + "\"}"@
}

/// The textual rendering of an exercise list: each exercise on a line of its
/// own, followed by a comma.
pub open spec fn spec_exercises_text(s: Seq<ExerciseView>) -> Seq<char>
    decreases s.len(),
{
    if s.len() == 0 {
        Seq::empty()
    } else {
        spec_exercises_text(s.drop_last()) + "\n"@ + spec_exercise_text(s.last()) + ","@
    }
}

/// The textual rendering of a topic with its exercises.
pub open spec fn spec_topic_text(t: TopicView) -> Seq<char> {
    "{id=\""@ + t.id + "\",\ntitle=\""@ + t.title + "\",\nexercises={"@ + spec_exercises_text(
        t.exercises,
    ) + "}"@
}

/// One step of collecting exercises row by row: an error already met is kept
/// (the first malformed row decides), a row without a record adds nothing,
/// and an extracted exercise is appended.
pub open spec fn extract_row_step(
    acc: Result<Seq<ExerciseView>, ExtractError>,
    row: (Option<Option<Seq<char>>>, Option<Option<Seq<char>>>),
) -> Result<Seq<ExerciseView>, ExtractError> {
    match acc {
        Err(e) => Err(e),
        Ok(s) => match spec_exercise_of_row(row) {
            Err(e) => Err(e),
            Ok(None) => Ok(s),
            Ok(Some(x)) => Ok(s.push(x)),
        },
    }
}

/// The exercises a row sequence extracts to, in document order and before
/// the ordering correction — or the first row's error.
pub open spec fn spec_exercises_of_rows(
    rows: Seq<(Option<Option<Seq<char>>>, Option<Option<Seq<char>>>)>,
) -> Result<Seq<ExerciseView>, ExtractError>
    decreases rows.len(),
{
    if rows.len() == 0 {
        Ok(Seq::empty())
    } else {
        extract_row_step(spec_exercises_of_rows(rows.drop_last()), rows.last())
    }
}

proof fn lemma_rows_error_persists(
    rows: Seq<(Option<Option<Seq<char>>>, Option<Option<Seq<char>>>)>,
    k: int,
)
    requires
        0 <= k <= rows.len(),
        spec_exercises_of_rows(rows.take(k)) is Err,
    ensures
        spec_exercises_of_rows(rows) == spec_exercises_of_rows(rows.take(k)),
    decreases rows.len() - k,
{
    if k == rows.len() {
        assert(rows.take(k) =~= rows);
    } else {
        assert(rows.take(k + 1).drop_last() =~= rows.take(k));
        assert(rows.take(k + 1).last() == rows[k]);
        lemma_rows_error_persists(rows, k + 1);
    }
}

/// Collects the exercises of every row, in document order, and applies the
/// ordering correction — or reports the first row's error.
pub fn extract_exercises(rows: &Vec<RowNode>) -> (r: Result<Vec<Exercise>, ExtractError>)
    ensures
        (match (r, spec_exercises_of_rows(rows@.map_values(|n: RowNode| n@))) {
            (Ok(v), Ok(s)) => v@.map_values(|e: Exercise| e@) == corrected(s),
            (Err(e1), Err(e2)) => e1 == e2,
            _ => false,
        }),
{
    let ghost rv = rows@.map_values(|n: RowNode| n@);
    let mut out: Vec<Exercise> = Vec::new();
    let mut i: usize = 0;
    proof {
        assert(rv.take(0) =~= Seq::<(Option<Option<Seq<char>>>, Option<Option<Seq<char>>>)>::empty());
        assert(out@.map_values(|e: Exercise| e@) =~= Seq::<ExerciseView>::empty());
    }
    while i < rows.len()
        invariant
            i <= rows.len(),
            rv == rows@.map_values(|n: RowNode| n@),
            spec_exercises_of_rows(rv.take(i as int)) == Ok::<_, ExtractError>(
                out@.map_values(|e: Exercise| e@),
            ),
        decreases rows.len() - i,
    {
        proof {
            assert(rv.take(i + 1).drop_last() =~= rv.take(i as int));
            assert(rv.take(i + 1).last() == rv[i as int]);
        }
        let ghost prev = out@.map_values(|e: Exercise| e@);
        match Exercise::new(&rows[i]) {
            Err(e) => {
                proof {
                    lemma_rows_error_persists(rv, i + 1);
                }
                return Err(e);
            },
            Ok(Some(x)) => {
                out.push(x);
                proof {
                    assert(out@.map_values(|e: Exercise| e@) =~= prev.push(out@.last()@));
                }
            },
            Ok(None) => {},
        }
        i = i + 1;
    }
    proof {
        assert(rv.take(rows@.len() as int) =~= rv);
    }
    Ok(correct_order(out))
}

/// One step of collecting topics listing by listing: errors persist, absent
/// records are skipped, extracted topics are appended in arrival order.
pub open spec fn extract_listing_step(
    acc: Result<Seq<TopicView>, ExtractError>,
    n: (Option<Seq<char>>, Seq<Seq<char>>),
) -> Result<Seq<TopicView>, ExtractError> {
    match acc {
        Err(e) => Err(e),
        Ok(s) => match spec_topic_of_listing(n) {
            Err(e) => Err(e),
            Ok(None) => Ok(s),
            Ok(Some(t)) => Ok(s.push(t)),
        },
    }
}

/// The topics a listing sequence extracts to, in arrival order, each with
/// empty exercises and empty render link — or the first listing's error.
pub open spec fn spec_topics_of_listings(ls: Seq<(Option<Seq<char>>, Seq<Seq<char>>)>) -> Result<
    Seq<TopicView>,
    ExtractError,
>
    decreases ls.len(),
{
    if ls.len() == 0 {
        Ok(Seq::empty())
    } else {
        extract_listing_step(spec_topics_of_listings(ls.drop_last()), ls.last())
    }
}

proof fn lemma_listings_error_persists(ls: Seq<(Option<Seq<char>>, Seq<Seq<char>>)>, k: int)
    requires
        0 <= k <= ls.len(),
        spec_topics_of_listings(ls.take(k)) is Err,
    ensures
        spec_topics_of_listings(ls) == spec_topics_of_listings(ls.take(k)),
    decreases ls.len() - k,
{
    if k == ls.len() {
        assert(ls.take(k) =~= ls);
    } else {
        assert(ls.take(k + 1).drop_last() =~= ls.take(k));
        assert(ls.take(k + 1).last() == ls[k]);
        lemma_listings_error_persists(ls, k + 1);
    }
}

/// Collects the topic of every listing element, in arrival order, skipping
/// elements that carry no record — or reports the first element's error.
pub fn extract_topics(listings: &Vec<ListingNode>) -> (r: Result<Vec<Topic>, ExtractError>)
    ensures
        (match (r, spec_topics_of_listings(listings@.map_values(|n: ListingNode| n@))) {
            (Ok(v), Ok(s)) => v@.map_values(|t: Topic| t@) == s,
            (Err(e1), Err(e2)) => e1 == e2,
            _ => false,
        }),
{
    let ghost lv = listings@.map_values(|n: ListingNode| n@);
    let mut out: Vec<Topic> = Vec::new();
    let mut i: usize = 0;
    proof {
        assert(lv.take(0) =~= Seq::<(Option<Seq<char>>, Seq<Seq<char>>)>::empty());
        assert(out@.map_values(|t: Topic| t@) =~= Seq::<TopicView>::empty());
    }
    while i < listings.len()
        invariant
            i <= listings.len(),
            lv == listings@.map_values(|n: ListingNode| n@),
            spec_topics_of_listings(lv.take(i as int)) == Ok::<_, ExtractError>(
                out@.map_values(|t: Topic| t@),
            ),
        decreases listings.len() - i,
    {
        proof {
            assert(lv.take(i + 1).drop_last() =~= lv.take(i as int));
            assert(lv.take(i + 1).last() == lv[i as int]);
        }
        let ghost prev = out@.map_values(|t: Topic| t@);
        match Topic::new(&listings[i]) {
            Err(e) => {
                proof {
                    lemma_listings_error_persists(lv, i + 1);
                }
                return Err(e);
            },
            Ok(Some(t)) => {
                out.push(t);
                proof {
                    assert(out@.map_values(|t: Topic| t@) =~= prev.push(out@.last()@));
                }
            },
            Ok(None) => {},
        }
        i = i + 1;
    }
    proof {
        assert(lv.take(listings@.len() as int) =~= lv);
    }
    Ok(out)
}

impl Topic {
    /// Extracts one topic from a flattened listing element, or reports its
    /// absence; its exercises and render link are filled in afterwards.
    pub fn new(node: &ListingNode) -> (r: Result<Option<Topic>, ExtractError>)
        ensures
            (match (r, spec_topic_of_listing(node@)) {
                (Ok(None), Ok(None)) => true,
                (Ok(Some(t)), Ok(Some(v))) => t@ == v,
                (Err(e1), Err(e2)) => e1 == e2,
                _ => false,
            }),
    {
        let id: String = match &node.id_attr {
            Some(s) => s.clone(),
            None => {
                return Err(ExtractError::MissingTopicId);
            },
        };
        let title = concat_fragments(&node.heading_texts);
        if id.as_str().is_empty() && title.as_str().is_empty() {
            Ok(None)
        } else {
            let exercises: Vec<Exercise> = Vec::new();
            proof {
                assert(exercises@.map_values(|e: Exercise| e@) =~= Seq::<ExerciseView>::empty());
            }
            Ok(
                Some(
                    Topic {
                        id,
                        title,
                        pdf_link: String::new(),
                        exercises,
                    },
                ),
            )
        }
    }

    /// Fills this topic's exercises from the markup of its exercise-listing
    /// page, in document order with the ordering correction applied. Must run
    /// exactly once, on a topic whose exercise list is still empty; on a
    /// malformed row nothing is changed and the error is reported.
    pub fn load_exercises(&mut self, response: &str) -> (r: Result<(), ExtractError>)
        requires
            old(self).exercises@.len() == 0,
        ensures
            final(self).id == old(self).id,
            final(self).title == old(self).title,
            final(self).pdf_link == old(self).pdf_link,
            (match (r, spec_exercises_of_rows(exercise_rows(response@))) {
                (Ok(u), Ok(s)) => final(self).exercises@.map_values(|e: Exercise| e@) == corrected(
                    s,
                ),
                (Err(e1), Err(e2)) => e1 == e2 && final(self).exercises == old(self).exercises,
                _ => false,
            }),
    {
        let rows = select_exercise_rows(response);
        match extract_exercises(&rows) {
            Ok(v) => {
                self.exercises = v;
                Ok(())
            },
            Err(e) => Err(e),
        }
    }

    /// Appends to `pdf_link` the render-collection link for the current
    /// exercise order. Meant to run once, after the exercise list has reached
    /// its final order: the link then reflects exactly the submitted
    /// exercise sequence.
    pub fn load_pdf_link(&mut self)
        ensures
            final(self).id == old(self).id,
            final(self).title == old(self).title,
            final(self).exercises == old(self).exercises,
            final(self).pdf_link@ == old(self).pdf_link@ + link_of(
                old(self).exercises@.map_values(|e: Exercise| e.id@),
            ),
    {
        let mut ids: Vec<String> = Vec::new();
        let mut i: usize = 0;
        proof {
            assert(ids@.map_values(|s: String| s@) =~= self.exercises@.map_values(
                |e: Exercise| e.id@,
            ).take(0));
        }
        while i < self.exercises.len()
            invariant
                i <= self.exercises.len(),
                *self == *old(self),
                ids@.map_values(|s: String| s@) == self.exercises@.map_values(
                    |e: Exercise| e.id@,
                ).take(i as int),
            decreases self.exercises.len() - i,
        {
            let ghost prev = ids@.map_values(|s: String| s@);
            ids.push(self.exercises[i].id.clone());
            proof {
                assert(ids@.map_values(|s: String| s@) =~= prev.push(ids@.last()@));
                assert(ids@.map_values(|s: String| s@) =~= self.exercises@.map_values(
                    |e: Exercise| e.id@,
                ).take(i + 1));
            }
            i = i + 1;
        }
        proof {
            assert(ids@.map_values(|s: String| s@) =~= self.exercises@.map_values(
                |e: Exercise| e.id@,
            ));
        }
        let l = build_link(&ids);
        self.pdf_link.append(l.as_str());
    }

    /// Renders this topic and its exercises as text.
    pub fn to_text(&self) -> (r: String)
        ensures
            r@ == spec_topic_text(self@),
    {
        let ghost evs = self.exercises@.map_values(|e: Exercise| e@);
        let mut body = String::new();
        let mut i: usize = 0;
        proof {
            assert(evs.take(0) =~= Seq::<ExerciseView>::empty());
        }
        while i < self.exercises.len()
            invariant
                i <= self.exercises.len(),
                evs == self.exercises@.map_values(|e: Exercise| e@),
                body@ == spec_exercises_text(evs.take(i as int)),
            decreases self.exercises.len() - i,
        {
            body.append("\n");
            let line = self.exercises[i].to_text();
            body.append(line.as_str());
            body.append(",");
            proof {
                assert(evs.take(i + 1).drop_last() =~= evs.take(i as int));
                assert(evs.take(i + 1).last() == evs[i as int]);
            }
            i = i + 1;
        }
        proof {
            assert(evs.take(self.exercises@.len() as int) =~= evs);
        }
        let mut r = String::from_str("{id=\"");
        r.append(self.id.as_str());
        r.append("\",\ntitle=\"");
        r.append(self.title.as_str());
        r.append("\",\nexercises={");
        r.append(body.as_str());
        r.append("}");
        r
    }
}

/// The topic catalogue, in arrival order from the index page.
pub struct Topics {
    pub topics: Vec<Topic>,
}

impl Topics {
    /// An empty catalogue.
    pub fn new() -> (r: Topics)
        ensures
            r.topics@.len() == 0,
    {
        Topics { topics: Vec::new() }
    }

    /// Appends every topic the index page's markup carries, in arrival
    /// order; listing elements with no record are silently skipped. On a
    /// malformed element nothing is changed and the error is reported: no
    /// partial catalogue is produced. The appended topics still need their
    /// exercises loaded and their render link built.
    pub fn load_topics(&mut self, index_html: &str) -> (r: Result<(), ExtractError>)
        ensures
            (match (r, spec_topics_of_listings(topic_listings(index_html@))) {
                (Ok(u), Ok(s)) => final(self).topics@.map_values(|t: Topic| t@) == old(
                    self,
                ).topics@.map_values(|t: Topic| t@) + s,
                (Err(e1), Err(e2)) => e1 == e2 && final(self).topics == old(self).topics,
                _ => false,
            }),
    {
        let listings = select_topic_listings(index_html);
        match extract_topics(&listings) {
            Ok(mut v) => {
                let ghost added = v@.map_values(|t: Topic| t@);
                let ghost before = self.topics@.map_values(|t: Topic| t@);
                self.topics.append(&mut v);
                proof {
                    assert(self.topics@.map_values(|t: Topic| t@) =~= before + added);
                }
                Ok(())
            },
            Err(e) => Err(e),
        }
    }
}

/// The name of the file a topic's rendered bytes are written to: the first
/// 13 characters of its title — characters, not bytes, so multi-byte text
/// keeps its boundaries — then the fixed extension.
pub open spec fn spec_file_name(title: Seq<char>) -> Seq<char> {
    title.take(if title.len() < 13 {
        title.len() as int
    } else {
        13
    }) + ".pdf"@
}

/// Derives a topic's file name from its title. Two topics sharing a
/// 13-character title prefix collide, and the later file overwrites the
/// earlier: an accepted limitation, not a guarded invariant.
pub fn file_name(title: &str) -> (r: String)
    ensures
        r@ == spec_file_name(title@),
{
    let n = title.unicode_len();
    let stem = if n > 13 {
        title.substring_char(0, 13)
    } else {
        title
    };
    proof {
        assert(stem@ =~= title@.take(
            if title@.len() < 13 {
                title@.len() as int
            } else {
                13
            },
        ));
    }
    let mut r = String::from_str(stem);
    r.append(".pdf");
    r
}

} // verus!
