//! Installing vanilla Minecraft.

use vstd::prelude::*;

verus! {

/// The stages of an installation, in the order they happen.
#[derive(PartialEq, Eq, Debug, Clone, Copy, Structural)]
pub enum InstallStages {
    DownloadingAssets,
    DownloadingLibraries,
    ExtractingNatives,
}

/// Where the version `id` first stands among the version ids `ids` of the
/// version manifest, if it stands there at all.
pub fn version_index(ids: &Vec<String>, id: &String) -> (r: Option<usize>)
    ensures
        match r {
            Some(k) => k < ids@.len() && ids@[k as int]@ == id@ && forall|j: int|
                0 <= j < k ==> #[trigger] ids@[j]@ != id@,
            None => forall|j: int| 0 <= j < ids@.len() ==> #[trigger] ids@[j]@ != id@,
        },
{
    let mut i: usize = 0;
    while i < ids.len()
        invariant
            i <= ids@.len(),
            forall|j: int| 0 <= j < i ==> #[trigger] ids@[j]@ != id@,
        decreases ids@.len() - i,
    {
        if ids[i] == *id {
            return Some(i);
        }
        i += 1;
    }
    None
}

/// The sum of the known sizes; an unknown size counts as 0.
pub open spec fn known_size_sum(sizes: Seq<Option<u64>>) -> int
    decreases sizes.len(),
{
    if sizes.len() == 0 {
        0
    } else {
        known_size_sum(sizes.drop_last()) + match sizes.last() {
            Some(n) => n as int,
            None => 0,
        }
    }
}

proof fn lemma_known_size_sum_prefix(sizes: Seq<Option<u64>>, k: int)
    requires
        0 <= k <= sizes.len(),
    ensures
        0 <= known_size_sum(sizes.take(k)) <= known_size_sum(sizes),
    decreases sizes.len(),
{
    if k == sizes.len() {
        assert(sizes.take(k) =~= sizes);
        if sizes.len() > 0 {
            lemma_known_size_sum_prefix(sizes.drop_last(), sizes.len() - 1);
            assert(sizes.drop_last().take(sizes.len() - 1) =~= sizes.drop_last());
        }
    } else {
        lemma_known_size_sum_prefix(sizes.drop_last(), k);
        assert(sizes.drop_last().take(k) =~= sizes.take(k));
        lemma_known_size_sum_prefix(sizes.drop_last(), sizes.len() - 1);
        assert(sizes.drop_last().take(sizes.len() - 1) =~= sizes.drop_last());
    }
}

/// The size of all downloads together, in whole mebibytes (rounded down).
pub fn total_download_mib(sizes: &Vec<Option<u64>>) -> (r: u64)
    requires
        known_size_sum(sizes@) <= u64::MAX,
    ensures
        r == known_size_sum(sizes@) / 1048576int,
{
    let mut total: u64 = 0;
    let mut i: usize = 0;
    while i < sizes.len()
        invariant
            i <= sizes@.len(),
            total == known_size_sum(sizes@.take(i as int)),
            known_size_sum(sizes@) <= u64::MAX,
        decreases sizes@.len() - i,
    {
        let n = match sizes[i] {
            Some(n) => n,
            None => 0,
        };
        proof {
            let next = sizes@.take(i + 1);
            assert(next.drop_last() =~= sizes@.take(i as int));
            lemma_known_size_sum_prefix(sizes@, i + 1);
        }
        total = total + n;
        i += 1;
    }
    assert(sizes@.take(sizes@.len() as int) =~= sizes@);
    total / (1024 * 1024)
}

} // verus!
