//! The source of rows decoded from JSON: a file of partitions, each of
//! pages of rows. The pipeline draws one task for each partition; what is
//! read of a partition is flattened into one stream of fallible rows.
//!
//! Listing the partitions of a file, listing the pages of a partition and
//! decoding a row may each fail. The three failures stay apart in one error
//! type; a failure is an item of the stream like any row, and never stops
//! the rows and partitions beside it.
use core::marker::PhantomData;
use vstd::prelude::*;
use vstd::std_specs::cmp::{PartialEqSpec, PartialEqSpecImpl};
use vstd::std_specs::convert::FromSpecImpl;
use vstd::string::to_string_from_display_ensures;
use crate::dist_iter::partitions::{reversed, PartitionTask, Partitions};
use crate::dist_iter::Consumer;

verus! {

/// What can go wrong between a file and a row.
#[derive(Debug)]
pub enum JsonError<A, B, C> {
    /// Listing the partitions of the file failed.
    File(A),
    /// Listing the pages of a partition failed.
    Partition(B),
    /// Reading a page failed.
    Page(C),
    /// A row is malformed; the decoder's message.
    Json(String),
}

impl<A: Clone, B: Clone, C: Clone> Clone for JsonError<A, B, C> {
    /// The same variant, with a clone of what it holds.
    fn clone(&self) -> (r: Self)
        ensures
            match (*self, r) {
                (JsonError::File(a), JsonError::File(b)) => cloned::<A>(a, b),
                (JsonError::Partition(a), JsonError::Partition(b)) => cloned::<B>(a, b),
                (JsonError::Page(a), JsonError::Page(b)) => cloned::<C>(a, b),
                (JsonError::Json(a), JsonError::Json(b)) => a@ == b@,
                _ => false,
            },
    {
        match self {
            Self::File(err) => Self::File(err.clone()),
            Self::Partition(err) => Self::Partition(err.clone()),
            Self::Page(err) => Self::Page(err.clone()),
            Self::Json(err) => Self::Json(err.clone()),
        }
    }
}

impl<A: PartialEq, B: PartialEq, C: PartialEq> PartialEq for JsonError<A, B, C> {
    fn eq(&self, other: &Self) -> (r: bool) {
        match (self, other) {
            (Self::File(a), Self::File(b)) => a.eq(b),
            (Self::Partition(a), Self::Partition(b)) => a.eq(b),
            (Self::Page(a), Self::Page(b)) => a.eq(b),
            (Self::Json(a), Self::Json(b)) => a.eq(b),
            _ => false,
        }
    }
}

impl<A: PartialEq, B: PartialEq, C: PartialEq> PartialEqSpecImpl for JsonError<A, B, C> {
    open spec fn obeys_eq_spec() -> bool {
        A::obeys_eq_spec() && B::obeys_eq_spec() && C::obeys_eq_spec()
    }

    /// Equal variants that hold equal failures; malformed rows are equal
    /// when the messages read the same.
    open spec fn eq_spec(&self, other: &Self) -> bool {
        match (*self, *other) {
            (JsonError::File(a), JsonError::File(b)) => a.eq_spec(&b),
            (JsonError::Partition(a), JsonError::Partition(b)) => a.eq_spec(&b),
            (JsonError::Page(a), JsonError::Page(b)) => a.eq_spec(&b),
            (JsonError::Json(a), JsonError::Json(b)) => a@ == b@,
            _ => false,
        }
    }
}

impl<A: core::fmt::Display, B: core::fmt::Display, C: core::fmt::Display> JsonError<A, B, C> {
    /// The text of the failure: that of the failure inside, whichever
    /// variant holds it.
    pub fn to_string(&self) -> (text: String)
        ensures
            match *self {
                JsonError::File(err) => to_string_from_display_ensures::<A>(&err, text),
                JsonError::Partition(err) => to_string_from_display_ensures::<B>(&err, text),
                JsonError::Page(err) => to_string_from_display_ensures::<C>(&err, text),
                JsonError::Json(err) => text@ == err@,
            },
    {
        match self {
            Self::File(err) => err.to_string(),
            Self::Partition(err) => err.to_string(),
            Self::Page(err) => err.to_string(),
            Self::Json(err) => err.clone(),
        }
    }
}

/// `serde_json::Error`: the failure of the JSON decoder, as the decoder
/// hands it out. Nothing is claimed of what is inside it; the library looks
/// into it only through its `Display`, for the message.
#[verifier::external_type_specification]
#[verifier::external_body]
pub struct ExDecodeError(serde_json::Error);

/// The rows of one page, as decoded: each a row or the decoder's failure.
pub type Page<Row> = Vec<Result<Row, serde_json::Error>>;

/// The pages of one partition, or the failure to list them.
pub type Pages<Row, B> = Result<Vec<Page<Row>>, B>;

/// Whether `item` is what the decoded `row` is in the stream: the row
/// itself, or the error of a malformed row with the message that the
/// decoder's failure displays.
pub open spec fn is_row_item<Row, A, B, C>(
    row: Result<Row, serde_json::Error>,
    item: Result<Row, JsonError<A, B, C>>,
) -> bool {
    match row {
        Ok(row) => item == Ok::<Row, JsonError<A, B, C>>(row),
        Err(failure) => item matches Err(JsonError::Json(message))
            && to_string_from_display_ensures::<serde_json::Error>(&failure, message),
    }
}

/// The error that stands for a decoder's failure: a malformed row, with
/// the message that the failure displays.
pub fn malformed<A, B, C>(failure: serde_json::Error) -> (e: JsonError<A, B, C>)
    ensures
        e matches JsonError::Json(message) && to_string_from_display_ensures::<serde_json::Error>(
            &failure,
            message,
        ),
{
    JsonError::Json(failure.to_string())
}

impl<A, B, C> From<serde_json::Error> for JsonError<A, B, C> {
    /// A decoder's failure is a malformed row.
    fn from(failure: serde_json::Error) -> (e: Self)
        ensures
            e matches JsonError::Json(message) && to_string_from_display_ensures::<
                serde_json::Error,
            >(&failure, message),
    {
        malformed(failure)
    }
}

impl<A, B, C> FromSpecImpl<serde_json::Error> for JsonError<A, B, C> {
    /// The message is told by what the failure displays, which is a
    /// relation: `from_spec` names one such message and binds no caller.
    open spec fn obeys_from_spec() -> bool {
        false
    }

    open spec fn from_spec(failure: serde_json::Error) -> Self {
        JsonError::Json(
            choose|message: String|
                to_string_from_display_ensures::<serde_json::Error>(&failure, message),
        )
    }
}

/// The decoded rows of a partition's pages, page after page.
pub open spec fn rows_of<Row>(pages: Seq<Page<Row>>) -> Seq<Result<Row, serde_json::Error>> {
    pages.map_values(|page: Page<Row>| page@).flatten()
}

/// Whether `items` is the stream of one partition: an item for each row of
/// its pages, page after page and in the order of the rows, malformed rows
/// in their place; or the one failure to list the pages.
pub open spec fn is_partition_stream<Row, A, B, C>(
    pages: Pages<Row, B>,
    items: Seq<Result<Row, JsonError<A, B, C>>>,
) -> bool {
    match pages {
        Ok(pages) => {
            &&& items.len() == rows_of(pages@).len()
            &&& forall|i: int|
                0 <= i < items.len() ==> is_row_item(rows_of(pages@)[i], #[trigger] items[i])
        },
        Err(failure) => items == seq![Err::<Row, JsonError<A, B, C>>(JsonError::Partition(failure))],
    }
}

/// Flattens one partition, as read, into its stream of items.
pub fn partition_rows<Row, A, B, C>(pages: Pages<Row, B>) -> (items: Vec<
    Result<Row, JsonError<A, B, C>>,
>)
    ensures
        is_partition_stream(pages, items@),
{
    let mut items: Vec<Result<Row, JsonError<A, B, C>>> = Vec::new();
    match pages {
        Err(failure) => {
            items.push(Err(JsonError::Partition(failure)));
            assert(items@ =~= seq![
                Err::<Row, JsonError<A, B, C>>(JsonError::Partition(failure)),
            ]);
        },
        Ok(list) => {
            let ghost all = list@;
            let ghost per_page = all.map_values(|page: Page<Row>| page@);
            let mut rest = reversed(list);
            assert(rest@.reverse() =~= all);
            assert(per_page.take(0) =~= Seq::empty());
            while rest.len() > 0
                invariant
                    rest.len() <= all.len(),
                    rest@ == all.reverse().take(rest.len() as int),
                    per_page == all.map_values(|page: Page<Row>| page@),
                    items@.len() == per_page.take(all.len() - rest.len()).flatten().len(),
                    forall|i: int|
                        0 <= i < items@.len() ==> is_row_item(
                            per_page.take(all.len() - rest.len()).flatten()[i],
                            #[trigger] items@[i],
                        ),
                decreases rest.len(),
            {
                let ghost k = all.len() - rest.len();
                let page = rest.pop().unwrap();
                assert(page == all[k]);
                let ghost rows = page@;
                let ghost before = per_page.take(k).flatten();
                let mut page_rest = reversed(page);
                assert(page_rest@.reverse() =~= rows);
                assert(before + rows.take(0) =~= before);
                while page_rest.len() > 0
                    invariant
                        page_rest.len() <= rows.len(),
                        page_rest@ == rows.reverse().take(page_rest.len() as int),
                        items@.len() == before.len() + rows.len() - page_rest.len(),
                        forall|i: int|
                            0 <= i < items@.len() ==> is_row_item(
                                (before + rows.take(rows.len() - page_rest.len()))[i],
                                #[trigger] items@[i],
                            ),
                    decreases page_rest.len(),
                {
                    let ghost j = rows.len() - page_rest.len();
                    let ghost so_far = items@;
                    let row = page_rest.pop().unwrap();
                    assert(row == rows[j]);
                    let item = match row {
                        Ok(row) => Ok(row),
                        Err(failure) => Err(malformed(failure)),
                    };
                    items.push(item);
                    assert forall|i: int| 0 <= i < items@.len() implies is_row_item(
                        (before + rows.take(j + 1))[i],
                        #[trigger] items@[i],
                    ) by {
                        if i < so_far.len() {
                            assert(items@[i] == so_far[i]);
                            assert((before + rows.take(j + 1))[i] == (before + rows.take(j))[i]);
                        } else {
                            assert((before + rows.take(j + 1))[i] == rows[j]);
                        }
                    }
                }
                proof {
                    assert(rows.take(rows.len() as int) =~= rows);
                    assert(per_page.take(k + 1) =~= per_page.take(k).push(rows));
                    per_page.take(k).lemma_flatten_push(rows);
                }
            }
            assert(per_page.take(all.len() as int) =~= per_page);
        },
    }
    items
}

/// The task that offers the items of one partition, as read: the second
/// half of a task of the source, for where the partition has been read.
pub fn partition_task<Row, A, B, C>(pages: Pages<Row, B>) -> (task: PartitionTask<
    Result<Row, JsonError<A, B, C>>,
>)
    ensures
        is_partition_stream(pages, task.items()),
        !task.may_wait(),
{
    PartitionTask::new(partition_rows(pages))
}

/// The JSON source over a file whose partitions are listed and not yet
/// read. `P` is a partition as the listing names it; `A`, `B` and `C` are
/// the failures of listing partitions, of listing pages and of reading a
/// page.
pub struct Json<P, Row, A, B, C> {
    partitions: Vec<P>,
    marker: PhantomData<(Row, A, B, C)>,
}

impl<P, Row, A, B, C> Json<P, Row, A, B, C> {
    /// The partitions, in the order of the listing.
    pub closed spec fn partitions(&self) -> Seq<P> {
        self.partitions@
    }

    /// The source over the listed partitions of a file, or the failure to
    /// list them. No partition is read here.
    pub fn new(listing: Result<Vec<P>, A>) -> (r: Result<Self, JsonError<A, B, C>>)
        ensures
            match listing {
                Ok(partitions) => r matches Ok(json) && json.partitions() == partitions@,
                Err(failure) => r matches Err(e) && e == JsonError::<A, B, C>::File(failure),
            },
    {
        match listing {
            Ok(partitions) => Ok(Self { partitions, marker: PhantomData }),
            Err(failure) => Err(JsonError::File(failure)),
        }
    }

    /// The pipeline of the source: one task for each partition, in the
    /// order of the listing. A task carries its partition and no more; the
    /// partition is read where the task runs, and `partition_rows` makes
    /// its stream of what was read.
    pub fn dist_iter(self) -> (pipeline: Partitions<P>)
        ensures
            pipeline.parts() == self.partitions().map_values(|partition: P| seq![partition]),
    {
        let ghost all = self.partitions@;
        let mut rest = reversed(self.partitions);
        assert(rest@.reverse() =~= all);
        let mut parts: Vec<Vec<P>> = Vec::new();
        while rest.len() > 0
            invariant
                rest.len() <= all.len(),
                rest@ == all.reverse().take(rest.len() as int),
                parts@.len() == all.len() - rest.len(),
                forall|i: int| 0 <= i < parts@.len() ==> (#[trigger] parts@[i])@ == seq![all[i]],
            decreases rest.len(),
        {
            let ghost k = all.len() - rest.len();
            let partition = rest.pop().unwrap();
            assert(partition == all[k]);
            let mut one: Vec<P> = Vec::new();
            one.push(partition);
            assert(one@ =~= seq![partition]);
            parts.push(one);
        }
        let pipeline = Partitions::new(parts);
        assert(pipeline.parts() =~= all.map_values(|partition: P| seq![partition]));
        pipeline
    }
}

} // verus!
