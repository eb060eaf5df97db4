use fns::country::CountryCode;
use fns::error::ConfigurationError;
use fns::models::WorkerRequest;
use fns::partition::{build_data, partition, IdRange};

fn chunks(start: u32, end: u32, workers: usize) -> Vec<Vec<u32>> {
    partition(CountryCode::Au, IdRange::new(start, end), workers)
        .unwrap()
        .into_iter()
        .map(|request| request.data)
        .collect()
}

#[test]
fn when_s_1_and_e_10_should_return_len_10() {
    let test_start = 1;
    let test_end = 10;
    let expected_result = 10;

    let actual_result = build_data(test_start, test_end);
    assert_eq!(expected_result, actual_result.len());
}

#[test]
fn build_data_lists_the_ids_in_order() {
    assert_eq!(build_data(1, 10), vec![1, 2, 3, 4, 5, 6, 7, 8, 9, 10]);
    assert_eq!(build_data(7, 7), vec![7]);
    assert_eq!(build_data(8, 7), Vec::<u32>::new());
    assert_eq!(
        build_data(u32::MAX - 2, u32::MAX),
        vec![u32::MAX - 2, u32::MAX - 1, u32::MAX]
    );
    assert_eq!(build_data(0, 2), vec![0, 1, 2]);
}

#[test]
fn worker_request_new_keeps_what_it_is_given() {
    let request = WorkerRequest::new(CountryCode::Jp, vec![3, 4, 5]);
    assert_eq!(request.country_code, CountryCode::Jp);
    assert_eq!(request.data, vec![3, 4, 5]);
}

#[test]
fn partition_splits_evenly_where_it_can() {
    assert_eq!(
        chunks(1, 10, 2),
        vec![vec![1, 2, 3, 4, 5], vec![6, 7, 8, 9, 10]]
    );
    assert_eq!(chunks(1, 10, 1), vec![vec![1, 2, 3, 4, 5, 6, 7, 8, 9, 10]]);
    assert_eq!(chunks(4, 6, 3), vec![vec![4], vec![5], vec![6]]);
}

#[test]
fn partition_gives_the_remainder_to_the_last_chunk() {
    assert_eq!(
        chunks(1, 10, 3),
        vec![vec![1, 2, 3], vec![4, 5, 6], vec![7, 8, 9, 10]]
    );
    assert_eq!(
        chunks(1, 11, 4),
        vec![vec![1, 2], vec![3, 4], vec![5, 6], vec![7, 8, 9, 10, 11]]
    );
    assert_eq!(
        chunks(1, 7, 4),
        vec![vec![1], vec![2], vec![3], vec![4, 5, 6, 7]]
    );
}

#[test]
fn partition_with_more_workers_than_ids_gives_each_id_its_own_chunk() {
    assert_eq!(chunks(1, 3, 5), vec![vec![1], vec![2], vec![3]]);
    assert_eq!(chunks(9, 9, 1000), vec![vec![9]]);
}

#[test]
fn partition_of_an_empty_range_has_no_chunk() {
    assert_eq!(chunks(5, 4, 3), Vec::<Vec<u32>>::new());
}

#[test]
fn partition_on_no_worker_is_refused() {
    assert_eq!(
        partition(CountryCode::Au, IdRange::new(1, 10), 0),
        Err(ConfigurationError::NoWorkers)
    );
    assert_eq!(
        partition(CountryCode::Au, IdRange::new(5, 4), 0),
        Err(ConfigurationError::NoWorkers)
    );
}

#[test]
fn partition_carries_the_country_to_every_chunk() {
    let requests = partition(CountryCode::Se, IdRange::new(1, 9), 3).unwrap();
    assert_eq!(requests.len(), 3);
    for request in requests.iter() {
        assert_eq!(request.country_code, CountryCode::Se);
    }
}

#[test]
fn partition_holds_every_id_exactly_once() {
    for start in [0u32, 1, 17] {
        for end in start..(start + 40) {
            for workers in 1usize..45 {
                let parts = chunks(start, end, workers);
                let flat: Vec<u32> = parts.iter().flatten().copied().collect();
                assert_eq!(flat, build_data(start, end));
                let expected = if (flat.len() / workers) == 0 {
                    flat.len()
                } else {
                    workers
                };
                assert_eq!(parts.len(), expected);
            }
        }
    }
}
