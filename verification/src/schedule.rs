use vstd::prelude::*;

verus! {

/// The rows of the image that one worker renders: under round-robin
/// striping, worker `worker` of `workers` owns exactly the row indices
/// below `height` that are congruent to `worker` modulo `workers`.
pub open spec fn worker_row_set(height: u32, workers: u32, worker: u32) -> Set<u32> {
    Set::new(|row: u32| row < height && row % workers == worker)
}

/// Rows assigned to `worker`, in the order the render driver walks
/// them: top image row first, so descending row index.
pub fn worker_rows(height: u32, workers: u32, worker: u32) -> (rows: Vec<u32>)
    requires
        1 <= workers,
        worker < workers,
    ensures
        forall|i: int| 0 <= i < rows@.len() ==> worker_row_set(height, workers, worker).contains(
            #[trigger] rows@[i],
        ),
        forall|row: u32| worker_row_set(height, workers, worker).contains(row) ==> rows@.contains(
            row,
        ),
        forall|i: int, j: int| 0 <= i < j < rows@.len() ==> rows@[i] > rows@[j],
{
    let mut rows: Vec<u32> = Vec::new();
    let mut next: u32 = height;
    while next > 0
        invariant
            next <= height,
            worker < workers,
            forall|i: int| 0 <= i < rows@.len() ==> next <= #[trigger] rows@[i] < height
                && rows@[i] % workers == worker,
            forall|row: u32| next <= row < height && row % workers == worker ==> rows@.contains(
                row,
            ),
            forall|i: int, j: int| 0 <= i < j < rows@.len() ==> rows@[i] > rows@[j],
        decreases next,
    {
        next = next - 1;
        if next % workers == worker {
            let ghost before = rows@;
            rows.push(next);
            proof {
                assert forall|row: u32| next <= row < height && row % workers == worker implies rows@.contains(
                    row,
                ) by {
                    if row == next {
                        assert(rows@[rows@.len() - 1] == row);
                    } else {
                        assert(next + 1 <= row < height);
                        assert(before.contains(row));
                        let i = choose|i: int| 0 <= i < before.len() && before[i] == row;
                        assert(rows@[i] == row);
                    }
                }
            }
        }
    }
    rows
}

/// Round-robin scanline striping assigns every row index below
/// `height` to exactly one of the `workers` workers: row `row` belongs
/// to the worker `row % workers`, and to no other.
pub proof fn lemma_scanline_partition(height: u32, workers: u32, row: u32)
    requires
        1 <= workers <= height,
        row < height,
    ensures
        row % workers < workers,
        worker_row_set(height, workers, (row % workers) as u32).contains(row),
        forall|w1: u32, w2: u32| worker_row_set(height, workers, w1).contains(row)
            && worker_row_set(height, workers, w2).contains(row) ==> w1 == w2,
{
}

} // verus!
