use crate::text::{chars_of, decimal, push_decimal, push_zero_padded, zero_padded};
use vstd::prelude::*;

verus! {

/// One part of a table that is written in chunks of rows.
#[derive(Clone, Copy, Debug, PartialEq, Eq, Structural)]
pub struct Chunk {
    /// The number of the part, from 0.
    pub part_number: usize,
    /// The first row of the part.
    pub start: usize,
    /// The number of rows of the part.
    pub len: usize,
}

/// The number of chunks of `chunk_size` rows that `n_rows` rows fall into.
pub open spec fn chunk_count(n_rows: int, chunk_size: int) -> int {
    (n_rows + chunk_size - 1) / chunk_size
}

/// The chunk with the given number: it starts where the chunks before it
/// end, and holds `chunk_size` rows or what is left of the table.
pub open spec fn chunk_at(n_rows: int, chunk_size: int, part_number: int) -> Chunk {
    let start = part_number * chunk_size;
    Chunk {
        part_number: part_number as usize,
        start: start as usize,
        len: (if n_rows - start < chunk_size {
            n_rows - start
        } else {
            chunk_size
        }) as usize,
    }
}

/// The chunks of a table lie one after the other, hold `chunk_size` rows
/// each but for the last, which holds at least one, and end with the table.
pub proof fn lemma_chunks_cover(n_rows: int, chunk_size: int, i: int)
    requires
        0 <= n_rows <= usize::MAX,
        0 < chunk_size,
        0 <= i < chunk_count(n_rows, chunk_size),
    ensures
        chunk_at(n_rows, chunk_size, i).start == i * chunk_size,
        1 <= chunk_at(n_rows, chunk_size, i).len <= chunk_size,
        chunk_at(n_rows, chunk_size, i).start + chunk_at(n_rows, chunk_size, i).len <= n_rows,
        i < chunk_count(n_rows, chunk_size) - 1 ==> chunk_at(n_rows, chunk_size, i).len
            == chunk_size && chunk_at(n_rows, chunk_size, i).start + chunk_size == chunk_at(
            n_rows,
            chunk_size,
            i + 1,
        ).start,
        i == chunk_count(n_rows, chunk_size) - 1 ==> chunk_at(n_rows, chunk_size, i).start
            + chunk_at(n_rows, chunk_size, i).len == n_rows,
{
    let count = chunk_count(n_rows, chunk_size);
    let padded = n_rows + chunk_size - 1;
    vstd::arithmetic::div_mod::lemma_fundamental_div_mod(padded, chunk_size);
    let rest = padded % chunk_size;
    assert(0 <= rest < chunk_size) by {
        vstd::arithmetic::div_mod::lemma_mod_bound(padded, chunk_size);
    }
    assert(padded == chunk_size * count + rest);
    assert(chunk_size * count == count * chunk_size) by (nonlinear_arith);
    // All chunks before the last fit whole.
    assert((i + 1) * chunk_size <= count * chunk_size) by (nonlinear_arith)
        requires
            i + 1 <= count,
            0 < chunk_size,
    ;
    assert((i + 1) * chunk_size == i * chunk_size + chunk_size) by (nonlinear_arith);
    assert(0 <= i * chunk_size) by (nonlinear_arith)
        requires
            0 <= i,
            0 < chunk_size,
    ;
    if i < count - 1 {
        assert((i + 2) * chunk_size <= count * chunk_size) by (nonlinear_arith)
            requires
                i + 2 <= count,
                0 < chunk_size,
        ;
        assert((i + 2) * chunk_size == i * chunk_size + 2 * chunk_size) by (nonlinear_arith);
    }
}

/// The chunks that a table of `n_rows` rows is written in, each of
/// `chunk_size` rows but the last, which holds the rest.
pub fn plan_chunks(n_rows: usize, chunk_size: usize) -> (chunks: Vec<Chunk>)
    requires
        chunk_size > 0,
    ensures
        chunks@.len() == chunk_count(n_rows as int, chunk_size as int),
        forall|i: int|
            0 <= i < chunks@.len() ==> #[trigger] chunks@[i] == chunk_at(
                n_rows as int,
                chunk_size as int,
                i,
            ),
{
    let mut chunks: Vec<Chunk> = Vec::new();
    let mut start: usize = 0;
    let mut part_number: usize = 0;
    assert(0 * chunk_size == 0) by (nonlinear_arith);
    while start < n_rows
        invariant
            chunk_size > 0,
            start <= n_rows,
            part_number > 0 ==> start < n_rows,
            part_number <= start,
            start == part_number * chunk_size,
            chunks@.len() == part_number,
            forall|i: int|
                0 <= i < part_number ==> #[trigger] chunks@[i] == chunk_at(
                    n_rows as int,
                    chunk_size as int,
                    i,
                ),
        decreases n_rows - start,
    {
        let rest: usize = n_rows - start;
        if rest <= chunk_size {
            chunks.push(Chunk { part_number, start, len: rest });
            proof {
                let count = part_number + 1;
                assert(count * chunk_size == part_number * chunk_size + chunk_size)
                    by (nonlinear_arith)
                    requires
                        count == part_number + 1,
                ;
                vstd::arithmetic::div_mod::lemma_fundamental_div_mod_converse(
                    n_rows + chunk_size - 1,
                    chunk_size as int,
                    count as int,
                    n_rows + chunk_size - 1 - count * chunk_size,
                );
            }
            return chunks;
        }
        chunks.push(Chunk { part_number, start, len: chunk_size });
        assert((part_number + 1) * chunk_size == part_number * chunk_size + chunk_size)
            by (nonlinear_arith);
        start = start + chunk_size;
        part_number = part_number + 1;
    }
    proof {
        vstd::arithmetic::div_mod::lemma_fundamental_div_mod_converse(
            chunk_size - 1,
            chunk_size as int,
            0,
            chunk_size - 1,
        );
    }
    chunks
}

/// The number of rows of a chunk when `rows` rows are shared out among
/// `threads` threads.
pub fn chunk_size_for(rows: usize, threads: usize) -> (size: usize)
    requires
        threads > 0,
    ensures
        size == rows / threads,
{
    rows / threads
}

/// Whether an output path asks for a partitioned dataset: it holds a slash.
pub fn is_partitioned_output(path: &str) -> (partitioned: bool)
    ensures
        partitioned == path@.contains('/'),
{
    let chars = chars_of(path);
    let mut at: usize = 0;
    while at < chars.len()
        invariant
            chars@ == path@,
            at <= chars@.len(),
            forall|i: int| 0 <= i < at ==> chars@[i] != '/',
        decreases chars@.len() - at,
    {
        if chars[at] == '/' {
            assert(path@[at as int] == '/');
            return true;
        }
        at = at + 1;
    }
    false
}

/// The name of the directory of a dataset.
pub open spec fn dataset_dir_text(dataset_id: Seq<char>) -> Seq<char> {
    "dataset="@ + dataset_id
}

/// The name of the directory of the dataset `dataset_id`.
pub fn dataset_dir_name(dataset_id: &str) -> (name: String)
    ensures
        name@ == dataset_dir_text(dataset_id@),
{
    let mut name = String::from_str("dataset=");
    name.append(dataset_id);
    name
}

/// The name of the file of a part: the number of the part in at least five
/// digits between `part-` and `.parquet`.
pub open spec fn part_file_text(part_number: int) -> Seq<char> {
    "part-"@ + zero_padded(part_number as nat, 5) + ".parquet"@
}

/// The name of the file of the part with the given number.
pub fn part_file_name(part_number: usize) -> (name: String)
    ensures
        name@ == part_file_text(part_number as int),
{
    let mut name = String::from_str("part-");
    push_zero_padded(&mut name, part_number as u64, 5);
    name.append(".parquet");
    name
}

/// The name of the file of one year of a register: the year, followed by
/// `12` for the register `bef`, and `.parquet`.
pub open spec fn year_file_text(register: Seq<char>, year: int) -> Seq<char> {
    if register == "bef"@ {
        decimal(year) + "12.parquet"@
    } else {
        decimal(year) + ".parquet"@
    }
}

/// The name of the file that holds the given year of a register.
pub fn year_file_name(register: &str, year: i32) -> (name: String)
    ensures
        name@ == year_file_text(register@, year as int),
{
    let mut name = String::new();
    push_decimal(&mut name, year as i64);
    let is_bef = register.to_owned() == "bef".to_owned();
    if is_bef {
        name.append("12.parquet");
    } else {
        name.append(".parquet");
    }
    assert(name@ =~= year_file_text(register@, year as int));
    name
}

/// The name of the file that describes the columns of a register.
pub open spec fn schema_file_text(register: Seq<char>) -> Seq<char> {
    register + ".json"@
}

/// The name of the schema file of `register`.
pub fn schema_file_name(register: &str) -> (name: String)
    ensures
        name@ == schema_file_text(register@),
{
    let mut name = String::from_str(register);
    name.append(".json");
    name
}

} // verus!
