use cdef_data_generator::error::{
    file_in_the_way, no_dataframes, no_input, register_dir_failed, schema_load_failed,
    schema_not_found,
};
use cdef_data_generator::write::{
    chunk_size_for, dataset_dir_name, is_partitioned_output, part_file_name, plan_chunks,
    schema_file_name, year_file_name, Chunk,
};

#[test]
fn ten_thousand_rows_in_chunks_of_2500_make_four_parts() {
    let chunks = plan_chunks(10_000, 2_500);
    assert_eq!(chunks.len(), 4);
    for (number, chunk) in chunks.iter().enumerate() {
        assert_eq!(chunk.part_number, number);
        assert_eq!(chunk.start, number * 2_500);
        assert_eq!(chunk.len, 2_500);
    }
    let names: Vec<String> = chunks.iter().map(|c| part_file_name(c.part_number)).collect();
    assert_eq!(
        names,
        vec![
            "part-00000.parquet",
            "part-00001.parquet",
            "part-00002.parquet",
            "part-00003.parquet"
        ]
    );
    // Planning again gives the same parts, so a second write names the
    // same four files.
    assert_eq!(plan_chunks(10_000, 2_500), chunks);
}

#[test]
fn last_chunk_holds_the_rest() {
    assert_eq!(
        plan_chunks(10, 4),
        vec![
            Chunk { part_number: 0, start: 0, len: 4 },
            Chunk { part_number: 1, start: 4, len: 4 },
            Chunk { part_number: 2, start: 8, len: 2 },
        ]
    );
    assert_eq!(plan_chunks(3, 5), vec![Chunk { part_number: 0, start: 0, len: 3 }]);
    assert_eq!(plan_chunks(5, 5), vec![Chunk { part_number: 0, start: 0, len: 5 }]);
    assert_eq!(plan_chunks(0, 5), vec![]);
    assert_eq!(
        plan_chunks(usize::MAX, usize::MAX - 1),
        vec![
            Chunk { part_number: 0, start: 0, len: usize::MAX - 1 },
            Chunk { part_number: 1, start: usize::MAX - 1, len: 1 },
        ]
    );
}

#[test]
fn chunks_cover_every_row_once() {
    for rows in 0..60usize {
        for size in 1..12usize {
            let chunks = plan_chunks(rows, size);
            assert_eq!(chunks.len(), (rows + size - 1) / size);
            let mut next = 0;
            for chunk in &chunks {
                assert_eq!(chunk.start, next);
                assert!(chunk.len >= 1 && chunk.len <= size);
                next += chunk.len;
            }
            assert_eq!(next, rows);
        }
    }
}

#[test]
fn chunk_size_shares_rows_among_threads() {
    assert_eq!(chunk_size_for(10_000, 4), 2_500);
    assert_eq!(chunk_size_for(10, 3), 3);
    assert_eq!(chunk_size_for(2, 3), 0);
    assert_eq!(chunk_size_for(7, 1), 7);
}

#[test]
fn output_with_a_slash_is_partitioned() {
    assert!(is_partitioned_output("out/data"));
    assert!(is_partitioned_output("/"));
    assert!(!is_partitioned_output("data.parquet"));
    assert!(!is_partitioned_output(""));
}

#[test]
fn file_names_follow_the_layout() {
    assert_eq!(dataset_dir_name("0"), "dataset=0");
    assert_eq!(dataset_dir_name(""), "dataset=");
    assert_eq!(part_file_name(0), "part-00000.parquet");
    assert_eq!(part_file_name(42), "part-00042.parquet");
    assert_eq!(part_file_name(99_999), "part-99999.parquet");
    assert_eq!(part_file_name(123_456), "part-123456.parquet");
    assert_eq!(year_file_name("bef", 2020), "202012.parquet");
    assert_eq!(year_file_name("akm", 2020), "2020.parquet");
    assert_eq!(year_file_name("befx", 7), "7.parquet");
    assert_eq!(year_file_name("bef", -3), "-312.parquet");
    assert_eq!(year_file_name("lpr_adm", i32::MIN), "-2147483648.parquet");
    assert_eq!(year_file_name("lpr_adm", 0), "0.parquet");
    assert_eq!(schema_file_name("bef"), "bef.json");
}

#[test]
fn errors_carry_the_name_and_the_path() {
    assert_eq!(
        schema_not_found("bef", "schemas/bef.json").message(),
        "Other error: Schema file for register 'bef' not found at path: schemas/bef.json"
    );
    assert_eq!(
        schema_load_failed("akm", "expected value at line 1").message(),
        "Other error: Failed to load JSON for register 'akm': expected value at line 1"
    );
    assert_eq!(
        register_dir_failed("ind", "permission denied").message(),
        "Other error: Failed to create directory for register 'ind': permission denied"
    );
    assert_eq!(
        no_input("nowhere").message(),
        "Invalid input: Input path \"nowhere\" is neither a file nor a directory"
    );
    assert_eq!(
        file_in_the_way("out/").message(),
        "IO error: A file with the name 'out/' already exists."
    );
    assert_eq!(no_dataframes().message(), "Other error: No dataframes found");
}
