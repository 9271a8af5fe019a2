//! The files of a model directory: what a listing of it holds, and how much room the files take.
use vstd::prelude::*;

verus! {

/// A model file. `P` is whatever the caller finds the file by; `access_time` is the point in time
/// at which the file was last accessed, later points having larger numbers.
#[derive(Debug)]
pub struct Item<P> {
    pub model_path: P,
    pub access_time: i128,
    pub file_size: u64,
}

/// One entry of a directory.
#[derive(Debug)]
pub enum Entry<P> {
    /// A plain file.
    File(Item<P>),
    /// A directory, a link or anything else.
    Other,
}

/// The room that `items` take together.
pub open spec fn total_size<P>(items: Seq<Item<P>>) -> nat
    decreases items.len(),
{
    if items.len() == 0 {
        0
    } else {
        total_size(items.drop_last()) + items.last().file_size as nat
    }
}

/// The plain files of a listing, up to the first entry that could not be read.
pub open spec fn files<P, E>(listing: Seq<Result<Entry<P>, E>>) -> Seq<Item<P>>
    decreases listing.len(),
{
    if listing.len() == 0 {
        Seq::empty()
    } else {
        let before = files(listing.drop_last());
        match listing.last() {
            Ok(Entry::File(item)) if first_failure(listing.drop_last()) is None => before.push(
                item,
            ),
            _ => before,
        }
    }
}

/// The failure of the first entry of a listing that could not be read.
pub open spec fn first_failure<P, E>(listing: Seq<Result<Entry<P>, E>>) -> Option<E>
    decreases listing.len(),
{
    if listing.len() == 0 {
        None
    } else {
        match first_failure(listing.drop_last()) {
            Some(e) => Some(e),
            None => match listing.last() {
                Ok(_) => None,
                Err(e) => Some(e),
            },
        }
    }
}

/// What a search of a directory gives: the plain files and the room they take, or the first
/// failure.
pub open spec fn search_result<P, E>(listing: Seq<Result<Entry<P>, E>>) -> Result<
    (Seq<Item<P>>, nat),
    E,
> {
    match first_failure(listing) {
        Some(e) => Err(e),
        None => Ok((files(listing), total_size(files(listing)))),
    }
}

/// Collects the plain files of a directory listing and adds up the room they take. The search
/// ends at the first entry that could not be read.
pub fn search_models<P, E>(listing: Vec<Result<Entry<P>, E>>) -> (found: Result<
    (Vec<Item<P>>, u64),
    E,
>)
    requires
        total_size(files(listing@)) <= u64::MAX,
    ensures
        match found {
            Ok((items, size)) => search_result(listing@) == Ok::<(Seq<Item<P>>, nat), E>(
                (items@, size as nat),
            ),
            Err(e) => search_result(listing@) == Err::<(Seq<Item<P>>, nat), E>(e),
        },
        match found {
            Ok((items, size)) => {
                &&& forall|i: int| 0 <= i < listing@.len() ==> #[trigger] listing@[i] is Ok
                &&& items@ == files(listing@)
                &&& items@ == plain_files(listing@)
                &&& size == total_size(items@)
            },
            Err(e) => exists|i: int|
                {
                    &&& 0 <= i < listing@.len()
                    &&& #[trigger] listing@[i] == Err::<Entry<P>, E>(e)
                    &&& forall|k: int| 0 <= k < i ==> #[trigger] listing@[k] is Ok
                },
        },
{
    let mut items: Vec<Item<P>> = Vec::new();
    let mut total_model_size: u64 = 0;
    let ghost all = listing@;
    for read in it: listing
        invariant
            it.seq() == all,
            total_size(files(all)) <= u64::MAX,
            first_failure(all.take(it.index() as int)) is None,
            items@ == files(all.take(it.index() as int)),
            total_model_size == total_size(items@),
    {
        proof {
            let n = it.index() as int;
            assert(all.take(n + 1).drop_last() =~= all.take(n));
            lemma_first_failure_stays(all, n + 1);
            lemma_files_prefix(all, n + 1);
        }
        match read {
            Ok(Entry::File(item)) => {
                assert(items@.push(item).drop_last() =~= items@);
                total_model_size = total_model_size + item.file_size;
                items.push(item);
            },
            Ok(Entry::Other) => {},
            Err(e) => {
                proof {
                    law_first_failure_is_reported(all, e);
                }
                return Err(e);
            },
        }
    }
    assert(all.take(all.len() as int) =~= all);
    proof {
        law_listing_without_failure(all);
        law_plain_files_are_found(all);
    }
    Ok((items, total_model_size))
}

/// The room that the plain files of a listing take together, or nothing where it is more than can
/// be counted.
pub fn listed_size<P, E>(listing: &Vec<Result<Entry<P>, E>>) -> (size: Option<u64>)
    ensures
        match size {
            Some(n) => n == total_size(files(listing@)),
            None => total_size(files(listing@)) > u64::MAX,
        },
{
    let mut size: u64 = 0;
    let mut i: usize = 0;
    while i < listing.len()
        invariant
            i <= listing@.len(),
            first_failure(listing@.take(i as int)) is None,
            size == total_size(files(listing@.take(i as int))),
        decreases listing@.len() - i,
    {
        proof {
            let n = i as int;
            assert(listing@.take(n + 1).drop_last() =~= listing@.take(n));
            lemma_files_prefix(listing@, n + 1);
            if listing@[n] is Err {
                lemma_files_end(listing@, n + 1);
            }
        }
        match &listing[i] {
            Ok(Entry::File(item)) => {
                let ghost before = files(listing@.take(i as int));
                assert(before.push(*item).drop_last() =~= before);
                match size.checked_add(item.file_size) {
                    Some(sum) => {
                        size = sum;
                    },
                    None => {
                        return None;
                    },
                }
            },
            Ok(Entry::Other) => {},
            Err(_) => {
                return Some(size);
            },
        }
        i = i + 1;
    }
    assert(listing@.take(listing@.len() as int) =~= listing@);
    Some(size)
}

/// Whether an entry of a listing could not be read.
pub fn has_failure<P, E>(listing: &Vec<Result<Entry<P>, E>>) -> (failed: bool)
    ensures
        failed == (first_failure(listing@) is Some),
        failed == exists|i: int| 0 <= i < listing@.len() && #[trigger] listing@[i] is Err,
{
    proof {
        law_listing_without_failure(listing@);
    }
    let mut i: usize = 0;
    while i < listing.len()
        invariant
            i <= listing@.len(),
            first_failure(listing@.take(i as int)) is None,
        decreases listing@.len() - i,
    {
        proof {
            let n = i as int;
            assert(listing@.take(n + 1).drop_last() =~= listing@.take(n));
            lemma_first_failure_stays(listing@, n + 1);
        }
        if listing[i].is_err() {
            return true;
        }
        i = i + 1;
    }
    assert(listing@.take(listing@.len() as int) =~= listing@);
    false
}

/// No file counts behind the first entry that could not be read.
proof fn lemma_files_end<P, E>(listing: Seq<Result<Entry<P>, E>>, n: int)
    requires
        0 <= n <= listing.len(),
        first_failure(listing.take(n)) is Some,
    ensures
        files(listing) == files(listing.take(n)),
    decreases listing.len() - n,
{
    if n < listing.len() {
        assert(listing.take(n + 1).drop_last() =~= listing.take(n));
        lemma_files_end(listing, n + 1);
    } else {
        assert(listing.take(n) =~= listing);
    }
}

/// The first failure of a part of a listing is that of the whole listing.
proof fn lemma_first_failure_stays<P, E>(listing: Seq<Result<Entry<P>, E>>, n: int)
    requires
        0 <= n <= listing.len(),
    ensures
        first_failure(listing.take(n)) is Some ==> first_failure(listing) == first_failure(
            listing.take(n),
        ),
    decreases listing.len() - n,
{
    if n < listing.len() {
        lemma_first_failure_stays(listing, n + 1);
        assert(listing.take(n + 1).drop_last() =~= listing.take(n));
    } else {
        assert(listing.take(n) =~= listing);
    }
}

/// The files of a part of a listing take no more room than those of the whole listing.
proof fn lemma_files_prefix<P, E>(listing: Seq<Result<Entry<P>, E>>, n: int)
    requires
        0 <= n <= listing.len(),
    ensures
        total_size(files(listing.take(n))) <= total_size(files(listing)),
    decreases listing.len() - n,
{
    if n < listing.len() {
        lemma_files_prefix(listing, n + 1);
        assert(listing.take(n + 1).drop_last() =~= listing.take(n));
        let before = files(listing.take(n));
        match listing[n] {
            Ok(Entry::File(item)) => {
                assert(before.push(item).drop_last() =~= before);
            },
            _ => {},
        }
    } else {
        assert(listing.take(n) =~= listing);
    }
}

/// The room that files take is the sum over the files: none takes none, one takes its own size, and
/// the room of two groups of files adds up.
pub proof fn law_room_adds_up<P>(first: Seq<Item<P>>, item: Item<P>, second: Seq<Item<P>>)
    ensures
        total_size(Seq::<Item<P>>::empty()) == 0,
        total_size(seq![item]) == item.file_size,
        total_size(first + second) == total_size(first) + total_size(second),
    decreases second.len(),
{
    assert(seq![item].drop_last() =~= Seq::empty());
    assert(total_size(seq![item].drop_last()) == 0);
    if second.len() == 0 {
        assert(first + second =~= first);
    } else {
        law_room_adds_up(first, item, second.drop_last());
        assert((first + second).drop_last() =~= first + second.drop_last());
        assert((first + second).last() == second.last());
    }
}

/// The plain files among the entries of a listing, in the order in which they are listed.
pub open spec fn plain_files<P, E>(listing: Seq<Result<Entry<P>, E>>) -> Seq<Item<P>> {
    listing.filter(
        |read: Result<Entry<P>, E>| read is Ok && read->Ok_0 is File,
    ).map_values(|read: Result<Entry<P>, E>| read->Ok_0->File_0)
}

/// Where every entry could be read, the files of a listing are all its plain files, in order.
pub proof fn law_plain_files_are_found<P, E>(listing: Seq<Result<Entry<P>, E>>)
    requires
        forall|i: int| 0 <= i < listing.len() ==> #[trigger] listing[i] is Ok,
    ensures
        files(listing) == plain_files(listing),
    decreases listing.len(),
{
    reveal(Seq::filter);
    if listing.len() > 0 {
        let before = listing.drop_last();
        assert forall|i: int| 0 <= i < before.len() implies #[trigger] before[i] is Ok by {
            assert(listing[i] is Ok);
        }
        law_plain_files_are_found(before);
        law_listing_without_failure(before);
        assert(listing[listing.len() - 1] is Ok);
    }
    assert(files(listing) =~= plain_files(listing));
}

/// No file is counted that is listed behind an entry which could not be read.
pub proof fn law_files_end_at_a_failure<P, E>(listing: Seq<Result<Entry<P>, E>>, i: int)
    requires
        0 <= i < listing.len(),
        listing[i] is Err,
        forall|k: int| 0 <= k < i ==> #[trigger] listing[k] is Ok,
    ensures
        files(listing) == plain_files(listing.take(i)),
{
    let before = listing.take(i);
    assert forall|k: int| 0 <= k < before.len() implies #[trigger] before[k] is Ok by {
        assert(listing[k] is Ok);
    }
    law_plain_files_are_found(before);
    law_listing_without_failure(before);
    assert(listing.take(i + 1).drop_last() =~= before);
    lemma_files_end(listing, i + 1);
}

/// A listing has no failure exactly where each of its entries could be read.
pub proof fn law_listing_without_failure<P, E>(listing: Seq<Result<Entry<P>, E>>)
    ensures
        first_failure(listing) is None <==> forall|i: int|
            0 <= i < listing.len() ==> #[trigger] listing[i] is Ok,
    decreases listing.len(),
{
    if listing.len() > 0 {
        let before = listing.drop_last();
        law_listing_without_failure(before);
        if first_failure(listing) is None {
            assert forall|i: int| 0 <= i < listing.len() implies #[trigger] listing[i] is Ok by {
                if i < before.len() {
                    assert(before[i] is Ok);
                }
            }
        }
        if forall|i: int| 0 <= i < listing.len() ==> #[trigger] listing[i] is Ok {
            assert forall|i: int| 0 <= i < before.len() implies #[trigger] before[i] is Ok by {
                assert(listing[i] is Ok);
            }
            assert(listing[listing.len() - 1] is Ok);
        }
    }
}

/// The failure of a listing is that of the entry which could not be read and stands before all
/// others that could not.
pub proof fn law_first_failure_is_reported<P, E>(listing: Seq<Result<Entry<P>, E>>, e: E)
    ensures
        first_failure(listing) == Some(e) <==> exists|i: int|
            {
                &&& 0 <= i < listing.len()
                &&& #[trigger] listing[i] == Err::<Entry<P>, E>(e)
                &&& forall|k: int| 0 <= k < i ==> #[trigger] listing[k] is Ok
            },
    decreases listing.len(),
{
    if listing.len() > 0 {
        let n = listing.len() - 1;
        let before = listing.drop_last();
        law_first_failure_is_reported(before, e);
        law_listing_without_failure(before);
        if first_failure(listing) == Some(e) {
            if first_failure(before) == Some(e) {
                let i = choose|i: int|
                    {
                        &&& 0 <= i < before.len()
                        &&& #[trigger] before[i] == Err::<Entry<P>, E>(e)
                        &&& forall|k: int| 0 <= k < i ==> #[trigger] before[k] is Ok
                    };
                assert forall|k: int| 0 <= k < i implies #[trigger] listing[k] is Ok by {
                    assert(before[k] is Ok);
                }
                assert(listing[i] == Err::<Entry<P>, E>(e));
            } else {
                assert forall|k: int| 0 <= k < n implies #[trigger] listing[k] is Ok by {
                    assert(before[k] is Ok);
                }
                assert(listing[n] == Err::<Entry<P>, E>(e));
            }
        }
        if exists|i: int|
            {
                &&& 0 <= i < listing.len()
                &&& #[trigger] listing[i] == Err::<Entry<P>, E>(e)
                &&& forall|k: int| 0 <= k < i ==> #[trigger] listing[k] is Ok
            } {
            let i = choose|i: int|
                {
                    &&& 0 <= i < listing.len()
                    &&& #[trigger] listing[i] == Err::<Entry<P>, E>(e)
                    &&& forall|k: int| 0 <= k < i ==> #[trigger] listing[k] is Ok
                };
            assert forall|k: int| 0 <= k < i && k < n implies #[trigger] before[k] is Ok by {
                assert(listing[k] is Ok);
            }
            if i < n {
                assert(before[i] == Err::<Entry<P>, E>(e));
            }
        }
    }
}

/// A plain file counts and nothing else does, and where every entry of a first part of a listing
/// could be read, the files of the whole are those of the first part and then those of the rest.
pub proof fn law_files_of_parts_follow_each_other<P, E>(
    first: Seq<Result<Entry<P>, E>>,
    item: Item<P>,
    e: E,
    second: Seq<Result<Entry<P>, E>>,
)
    requires
        forall|i: int| 0 <= i < first.len() ==> #[trigger] first[i] is Ok,
    ensures
        files(seq![Ok::<Entry<P>, E>(Entry::File(item))]) == seq![item],
        files(seq![Ok::<Entry<P>, E>(Entry::Other)]) == Seq::<Item<P>>::empty(),
        files(seq![Err::<Entry<P>, E>(e)] + second) == Seq::<Item<P>>::empty(),
        files(first + second) == files(first) + files(second),
    decreases second.len(),
{
    let file = seq![Ok::<Entry<P>, E>(Entry::File(item))];
    let other = seq![Ok::<Entry<P>, E>(Entry::Other)];
    let failed = seq![Err::<Entry<P>, E>(e)];
    assert(file.drop_last() =~= Seq::empty());
    assert(other.drop_last() =~= Seq::empty());
    assert(failed.drop_last() =~= Seq::empty());
    assert(first_failure(file.drop_last()) is None);
    assert(files(file.drop_last()) =~= Seq::empty());
    assert(files(file) =~= seq![item]);
    assert(files(other.drop_last()) =~= Seq::empty());
    assert(files(failed.drop_last()) =~= Seq::empty());
    assert(first_failure(failed.drop_last()) is None);
    assert((failed + second).take(1) =~= failed);
    lemma_files_end(failed + second, 1);
    law_listing_without_failure(first);
    if second.len() == 0 {
        assert(first + second =~= first);
        assert(files(first) + files(second) =~= files(first));
    } else {
        let before = second.drop_last();
        law_files_of_parts_follow_each_other(first, item, e, before);
        assert((first + second).drop_last() =~= first + before);
        law_listing_without_failure(before);
        law_listing_without_failure(first + before);
        if first_failure(before) is None {
            assert forall|i: int| 0 <= i < (first + before).len() implies #[trigger] (first
                + before)[i] is Ok by {
                if i < first.len() {
                    assert(first[i] is Ok);
                } else {
                    assert(before[i - first.len()] is Ok);
                }
            }
        }
        if first_failure(first + before) is None {
            assert forall|i: int| 0 <= i < before.len() implies #[trigger] before[i] is Ok by {
                assert((first + before)[first.len() + i] is Ok);
            }
        }
        assert(files(first + second) =~= files(first) + files(second));
    }
}

} // verus!
