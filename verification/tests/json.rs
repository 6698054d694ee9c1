use amadeus_core::dist_iter::collect::{FromDistributedIterator, PushReducer};
use amadeus_core::dist_iter::{
    poll_reduce, Consumer, DistributedIterator, Poll, ReduceFactory, Reducer,
};
use amadeus_core::json::{
    malformed, partition_rows, partition_task, Json, JsonError, Pages,
};

type Failure = JsonError<String, u8, char>;

fn ok(row: u32) -> Result<u32, serde_json::Error> {
    Ok(row)
}

/// What the decoder says of `text`, which is no number.
fn bad(text: &str) -> Result<u32, serde_json::Error> {
    let decoded = serde_json::from_str::<u32>(text);
    assert!(decoded.is_err());
    decoded
}

const NO_VALUE: &str = "expected value at line 1 column 1";
const NO_INPUT: &str = "EOF while parsing a value at line 1 column 0";
const TRAILING: &str = "trailing characters at line 1 column 3";

#[test]
fn pages_are_flattened_in_order() {
    let pages: Pages<u32, u8> = Ok(vec![vec![ok(1), ok(2)], vec![], vec![ok(3)]]);
    let items: Vec<Result<u32, Failure>> = partition_rows(pages);
    assert!(items == vec![Ok(1), Ok(2), Ok(3)]);
}

#[test]
fn a_malformed_row_stays_in_its_place() {
    let pages: Pages<u32, u8> = Ok(vec![vec![ok(1), bad("x"), ok(2)], vec![ok(3)]]);
    let items: Vec<Result<u32, Failure>> = partition_rows(pages);
    assert!(
        items
            == vec![
                Ok(1),
                Err(JsonError::Json(String::from(NO_VALUE))),
                Ok(2),
                Ok(3)
            ]
    );
}

#[test]
fn a_failed_page_listing_is_one_item() {
    let pages: Pages<u32, u8> = Err(7);
    let items: Vec<Result<u32, Failure>> = partition_rows(pages);
    assert!(items == vec![Err(JsonError::Partition(7))]);
}

#[test]
fn a_partition_without_pages_has_no_items() {
    let pages: Pages<u32, u8> = Ok(vec![]);
    let items: Vec<Result<u32, Failure>> = partition_rows(pages);
    assert!(items.is_empty());
}

type Source = Json<u8, u32, String, u8, char>;

/// What reading the partition with this name gives.
fn read(partition: u8) -> Pages<u32, u8> {
    match partition {
        0 => Ok(vec![vec![ok(1), bad("")], vec![ok(2)]]),
        1 => Err(9),
        2 => Ok(vec![vec![ok(3)]]),
        3 => Ok(vec![vec![ok(4), bad("1 2"), ok(5)]]),
        _ => Ok(vec![]),
    }
}

/// Runs every task of the source, reading each partition where its task
/// runs, and hands out the per-task outputs of the target `C`.
fn run_tasks<C: FromDistributedIterator<Result<u32, Failure>>>(
    source: Source,
) -> Vec<<C::ReduceA as Reducer>::Output> {
    let mut pipeline = source.dist_iter();
    let (factory, _) = C::reducers();
    let mut outs = Vec::new();
    while let Some(task) = pipeline.next_task() {
        let mut running = task.into_async();
        let (poll, handles) = poll_reduce(&mut running, PushReducer::<u8, Vec<u8>>::default());
        assert!(matches!(poll, Poll::Ready(true)));
        let handles = handles.ret();
        assert_eq!(handles.len(), 1);
        let mut reducer = factory.make();
        for partition in handles {
            let mut rows = partition_task::<u32, String, u8, char>(read(partition)).into_async();
            let (poll, back) = poll_reduce(&mut rows, reducer);
            assert!(matches!(poll, Poll::Ready(_)));
            reducer = back;
        }
        outs.push(reducer.ret());
    }
    outs
}

fn merge<C: FromDistributedIterator<Result<u32, Failure>>>(
    outs: Vec<<C::ReduceA as Reducer>::Output>,
) -> C {
    let (_, mut b) = C::reducers();
    for out in outs {
        if !b.push(out) {
            break;
        }
    }
    b.ret()
}

fn source(partitions: Vec<u8>) -> Source {
    match Json::new(Ok(partitions)) {
        Ok(json) => json,
        Err(_) => panic!("the listing succeeded"),
    }
}

#[test]
fn a_failed_partition_listing_fails_the_source() {
    let made: Result<Source, Failure> = Json::new(Err(String::from("no such file")));
    match made {
        Err(e) => assert!(e == JsonError::File(String::from("no such file"))),
        Ok(_) => panic!("the listing failed"),
    }
}

#[test]
fn one_task_for_each_partition() {
    let mut pipeline = source(vec![7, 8, 9]).dist_iter();
    assert_eq!(pipeline.size_hint(), (3, Some(3)));
    for expected in [7u8, 8, 9] {
        let mut running = pipeline.next_task().unwrap().into_async();
        let (_, handles) = poll_reduce(&mut running, PushReducer::<u8, Vec<u8>>::default());
        assert_eq!(handles.ret(), vec![expected]);
    }
    assert!(pipeline.next_task().is_none());
}

#[test]
fn a_source_without_partitions_has_no_task() {
    let mut pipeline = source(vec![]).dist_iter();
    assert_eq!(pipeline.size_hint(), (0, Some(0)));
    assert!(pipeline.next_task().is_none());
}

#[test]
fn the_task_of_a_read_partition_offers_its_items() {
    let mut rows = partition_task::<u32, String, u8, char>(read(0)).into_async();
    let (poll, reducer) = poll_reduce(
        &mut rows,
        PushReducer::<Result<u32, Failure>, Vec<Result<u32, Failure>>>::default(),
    );
    assert!(matches!(poll, Poll::Ready(true)));
    assert!(reducer.ret() == vec![Ok(1), Err(JsonError::Json(String::from(NO_INPUT))), Ok(2)]);
}

#[test]
fn failures_do_not_stop_the_rows_beside_them() {
    let outs = run_tasks::<Vec<Result<u32, Failure>>>(source(vec![0, 1, 2]));
    let all: Vec<Result<u32, Failure>> = merge(outs);
    assert!(
        all == vec![
            Ok(1),
            Err(JsonError::Json(String::from(NO_INPUT))),
            Ok(2),
            Err(JsonError::Partition(9)),
            Ok(3)
        ]
    );
}

#[test]
fn the_first_failure_is_the_result_of_a_wrapped_target() {
    let outs = run_tasks::<Result<Vec<u32>, Failure>>(source(vec![2, 3, 1]));
    let all: Result<Vec<u32>, Failure> = merge(outs);
    match all {
        Err(e) => assert!(e == JsonError::Json(String::from(TRAILING))),
        Ok(_) => panic!("the job fails with the first failure"),
    }
}

#[test]
fn a_job_without_failure_gives_the_rows() {
    let outs = run_tasks::<Result<Vec<u32>, Failure>>(source(vec![2, 4, 2]));
    let all: Result<Vec<u32>, Failure> = merge(outs);
    assert!(all == Ok(vec![3, 3]));
}

#[test]
fn errors_are_equal_by_variant_and_content() {
    let file: Failure = JsonError::File(String::from("x"));
    let partition: Failure = JsonError::Partition(1);
    let page: Failure = JsonError::Page('p');
    let json: Failure = JsonError::Json(String::from("x"));
    assert!(file == JsonError::File(String::from("x")));
    assert!(file != JsonError::File(String::from("y")));
    assert!(partition == JsonError::Partition(1));
    assert!(partition != JsonError::Partition(2));
    assert!(page == JsonError::Page('p'));
    assert!(page != JsonError::Page('q'));
    assert!(json == JsonError::Json(String::from("x")));
    assert!(json != JsonError::Json(String::from("y")));
    assert!(file != json);
    assert!(partition != page);
}

#[test]
fn a_cloned_error_is_equal() {
    let all: Vec<Failure> = vec![
        JsonError::File(String::from("x")),
        JsonError::Partition(1),
        JsonError::Page('p'),
        JsonError::Json(String::from("m")),
    ];
    for e in all.iter() {
        assert!(e.clone() == *e);
    }
}

#[test]
fn an_error_reads_as_the_failure_inside() {
    let file: Failure = JsonError::File(String::from("no such file"));
    let partition: Failure = JsonError::Partition(12);
    let page: Failure = JsonError::Page('p');
    let json: Failure = JsonError::Json(String::from("expected value at line 1 column 2"));
    assert_eq!(file.to_string(), "no such file");
    assert_eq!(partition.to_string(), "12");
    assert_eq!(page.to_string(), "p");
    assert_eq!(json.to_string(), "expected value at line 1 column 2");
}

#[test]
fn a_decoder_failure_becomes_a_malformed_row() {
    let failure = serde_json::from_str::<u32>("x").unwrap_err();
    let text = failure.to_string();
    let e: Failure = malformed(failure);
    assert!(e == JsonError::Json(text));
    assert_eq!(e.to_string(), NO_VALUE);

    let failure = serde_json::from_str::<u32>("[").unwrap_err();
    let text = failure.to_string();
    let e: Failure = JsonError::from(failure);
    assert!(e == JsonError::Json(text));
}
