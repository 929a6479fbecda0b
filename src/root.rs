//! The upward search for the directory that holds a marker entry.
//!
//! A directory path is the list of its components below the filesystem
//! root (`/a/b/c` is `["a", "b", "c"]`, `/` is empty). The ancestor of
//! depth `k` of a start directory is its first `k` components. The search
//! lists the start directory, then each parent in turn, and stops at the
//! first one that has an entry named like the marker. Reaching the root
//! without a match is not an error; a listing that fails is.
use vstd::prelude::*;

verus! {

/// The outcome of listing one directory.
#[derive(Clone, Debug, PartialEq, Eq)]
pub enum Listing {
    /// The names of the directory's immediate children.
    Entries(Vec<String>),
    /// The directory could not be listed (permission denied, for one).
    Denied,
}

/// What a `Listing` means in contracts.
pub enum ListingView {
    Entries(Seq<Seq<char>>),
    Denied,
}

impl View for Listing {
    type V = ListingView;

    open spec fn view(&self) -> ListingView {
        match self {
            Listing::Entries(es) => ListingView::Entries(path_view(es@)),
            Listing::Denied => ListingView::Denied,
        }
    }
}

/// The search failed because a directory on the way up could not be listed.
#[derive(Clone, Copy, Debug, PartialEq, Eq, Structural)]
pub enum RootError {
    ListingDenied,
}

/// What to do after listing the ancestor at some depth.
#[derive(Clone, Copy, Debug, PartialEq, Eq, Structural)]
pub enum RootStep {
    /// This ancestor holds the marker: it is the root.
    Found,
    /// Go on with the parent.
    Ascend,
    /// This was the filesystem root: there is no marker above the start.
    NotFound,
    /// The listing failed: stop with an error.
    Failed,
}

/// The outcome of a whole search, in contracts.
pub enum Outcome {
    /// The ancestor of this depth holds the marker.
    FoundAt(nat),
    NotFound,
    Failed,
}

pub open spec fn lists_marker(l: ListingView, marker: Seq<char>) -> bool {
    match l {
        ListingView::Entries(es) => es.contains(marker),
        ListingView::Denied => false,
    }
}

/// The search from the ancestor of depth `depth` upward, where `ls[k]` is
/// the listing of the ancestor of depth `k`.
pub open spec fn search(ls: Seq<ListingView>, marker: Seq<char>, depth: nat) -> Outcome
    decreases depth,
{
    match ls[depth as int] {
        ListingView::Denied => Outcome::Failed,
        ListingView::Entries(es) => {
            if es.contains(marker) {
                Outcome::FoundAt(depth)
            } else if depth == 0 {
                Outcome::NotFound
            } else {
                search(ls, marker, (depth - 1) as nat)
            }
        },
    }
}

/// Whether a listing names `marker`.
pub fn has_entry(listing: &Listing, marker: &str) -> (r: bool)
    ensures
        r == lists_marker(listing@, marker@),
{
    match listing {
        Listing::Denied => false,
        Listing::Entries(es) => {
            let m: String = marker.to_owned();
            let mut i: usize = 0;
            while i < es.len()
                invariant
                    i <= es@.len(),
                    m@ == marker@,
                    listing@ == ListingView::Entries(path_view(es@)),
                    forall|j: int| 0 <= j < i ==> (#[trigger] es@[j])@ != marker@,
                decreases es.len() - i,
            {
                if es[i] == m {
                    assert(path_view(es@)[i as int] == marker@);
                    assert(path_view(es@).contains(marker@));
                    return true;
                }
                i = i + 1;
            }
            let ghost m = path_view(es@);
            assert(forall|j: int| 0 <= j < m.len() ==> #[trigger] m[j] == es@[j]@);
            assert(!m.contains(marker@));
            false
        },
    }
}

/// The decision after listing the ancestor of depth `depth`.
pub fn root_step(depth: usize, listing: &Listing, marker: &str) -> (r: RootStep)
    ensures
        listing@ is Denied ==> r == RootStep::Failed,
        listing@ is Entries ==> (lists_marker(listing@, marker@) ==> r == RootStep::Found),
        listing@ is Entries ==> (!lists_marker(listing@, marker@) && depth == 0 ==> r
            == RootStep::NotFound),
        listing@ is Entries ==> (!lists_marker(listing@, marker@) && depth > 0 ==> r
            == RootStep::Ascend),
{
    match listing {
        Listing::Denied => RootStep::Failed,
        Listing::Entries(_) => {
            if has_entry(listing, marker) {
                RootStep::Found
            } else if depth == 0 {
                RootStep::NotFound
            } else {
                RootStep::Ascend
            }
        },
    }
}

pub open spec fn listings_view(ls: Seq<Listing>) -> Seq<ListingView> {
    ls.map_values(|l: Listing| l@)
}

/// The components of a path, or the names of a listing, as character
/// sequences.
pub open spec fn path_view(p: Seq<String>) -> Seq<Seq<char>> {
    p.map_values(|c: String| c@)
}

/// Finds the root above `start`, given `listings[k]`, the listing of the
/// ancestor of `start` of depth `k`. Returns that ancestor's path.
pub fn find_root(start: &Vec<String>, listings: &Vec<Listing>, marker: &str) -> (r: Result<
    Option<Vec<String>>,
    RootError,
>)
    requires
        listings@.len() == start@.len() + 1,
    ensures
        match search(listings_view(listings@), marker@, start@.len()) {
            Outcome::FoundAt(k) => r matches Ok(Some(p)) && path_view(p@) == path_view(
                start@,
            ).take(k as int),
            Outcome::NotFound => r matches Ok(None),
            Outcome::Failed => r == Err::<Option<Vec<String>>, RootError>(
                RootError::ListingDenied,
            ),
        },
{
    let ghost lv = listings_view(listings@);
    let mut depth: usize = start.len();
    loop
        invariant
            depth <= start@.len(),
            listings@.len() == start@.len() + 1,
            lv == listings_view(listings@),
            search(lv, marker@, start@.len()) == search(lv, marker@, depth as nat),
        decreases depth,
    {
        assert(lv[depth as int] == listings[depth as int]@);
        match root_step(depth, &listings[depth], marker) {
            RootStep::Failed => {
                return Err(RootError::ListingDenied);
            },
            RootStep::NotFound => {
                return Ok(None);
            },
            RootStep::Found => {
                let mut p: Vec<String> = Vec::new();
                let mut i: usize = 0;
                while i < depth
                    invariant
                        i <= depth <= start@.len(),
                        p@.len() == i,
                        path_view(p@) == path_view(start@).take(i as int),
                    decreases depth - i,
                {
                    let ghost before = p@;
                    p.push(start[i].clone());
                    assert(p@ == before.push(start@[i as int]));
                    assert(path_view(p@) =~= path_view(start@).take(i + 1)) by {
                        assert(forall|j: int| 0 <= j < i ==> path_view(before)[j] == (
                        #[trigger] before[j])@);
                        assert(forall|j: int| 0 <= j <= i ==> path_view(p@)[j] == (
                        #[trigger] p@[j])@);
                        assert(forall|j: int| 0 <= j <= i ==> path_view(start@)[j] == (
                        #[trigger] start@[j])@);
                    }
                    i = i + 1;
                }
                return Ok(Some(p));
            },
            RootStep::Ascend => {
                depth = depth - 1;
            },
        }
    }
}

/// When the ancestor of depth `d` holds the marker and every directory
/// between it and the start lists without it, the search from the start
/// returns that ancestor: the nearest holder wins, whatever lies above it.
pub proof fn lemma_nearest_holder_found(ls: Seq<ListingView>, marker: Seq<char>, start: nat, d: nat)
    requires
        d <= start < ls.len(),
        lists_marker(ls[d as int], marker),
        forall|k: int|
            d < k <= start ==> #[trigger] ls[k] is Entries && !lists_marker(ls[k], marker),
    ensures
        search(ls, marker, start) == Outcome::FoundAt(d),
    decreases start,
{
    if start > d {
        assert(ls[start as int] is Entries && !lists_marker(ls[start as int], marker));
        lemma_nearest_holder_found(ls, marker, (start - 1) as nat, d);
    }
}

/// When no directory from the start up to the filesystem root holds the
/// marker and each of them lists, the search ends with "not found", not
/// with an error.
pub proof fn lemma_absent_marker_not_found(ls: Seq<ListingView>, marker: Seq<char>, start: nat)
    requires
        start < ls.len(),
        forall|k: int| 0 <= k <= start ==> #[trigger] ls[k] is Entries && !lists_marker(ls[k], marker),
    ensures
        search(ls, marker, start) == Outcome::NotFound,
    decreases start,
{
    assert(ls[start as int] is Entries && !lists_marker(ls[start as int], marker));
    if start > 0 {
        lemma_absent_marker_not_found(ls, marker, (start - 1) as nat);
    }
}

/// When the directory of depth `d` cannot be listed and none between it
/// and the start holds the marker, the search ends with an error, not with
/// "not found".
pub proof fn lemma_denied_listing_fails(ls: Seq<ListingView>, marker: Seq<char>, start: nat, d: nat)
    requires
        d <= start < ls.len(),
        ls[d as int] is Denied,
        forall|k: int|
            d < k <= start ==> #[trigger] ls[k] is Entries && !lists_marker(ls[k], marker),
    ensures
        search(ls, marker, start) == Outcome::Failed,
    decreases start,
{
    if start > d {
        assert(ls[start as int] is Entries && !lists_marker(ls[start as int], marker));
        lemma_denied_listing_fails(ls, marker, (start - 1) as nat, d);
    }
}

} // verus!
