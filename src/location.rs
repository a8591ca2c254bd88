//! Locations: the structural address of a declaration, how a host definition
//! path becomes one, and how one is written out.

use vstd::prelude::*;

use crate::text::{decimal_text, push_decimal, views};

verus! {

/// The address of a declaration: its crate, its path of segments, and the
/// impl block it sits in, if any.
#[derive(Clone, Debug)]
pub struct Location {
    pub crate_name: String,
    pub path: Vec<String>,
    pub impl_block_number: Option<usize>,
}

/// The mathematical value of a [`Location`].
pub struct LocationModel {
    pub crate_name: Seq<char>,
    pub path: Seq<Seq<char>>,
    pub impl_block_number: Option<usize>,
}

impl View for Location {
    type V = LocationModel;

    open spec fn view(&self) -> LocationModel {
        LocationModel {
            crate_name: self.crate_name@,
            path: views(self.path@),
            impl_block_number: self.impl_block_number,
        }
    }
}

/// Whether two lists of strings hold the same texts.
pub fn same_strings(a: &Vec<String>, b: &Vec<String>) -> (r: bool)
    ensures
        r == (views(a@) == views(b@)),
{
    if a.len() != b.len() {
        proof {
            assert(views(a@).len() != views(b@).len());
        }
        return false;
    }
    let mut i: usize = 0;
    while i < a.len()
        invariant
            a@.len() == b@.len(),
            i <= a@.len(),
            forall|k: int| 0 <= k < i ==> a@[k]@ == b@[k]@,
        decreases a@.len() - i,
    {
        if a[i] != b[i] {
            proof {
                assert(views(a@)[i as int] != views(b@)[i as int]);
            }
            return false;
        }
        i = i + 1;
    }
    proof {
        assert(views(a@) =~= views(b@));
    }
    true
}

impl Location {
    /// Whether two locations are the same: crate, path and impl block all
    /// agree.
    pub fn same_as(&self, other: &Location) -> (r: bool)
        ensures
            r == (self@ == other@),
    {
        self.crate_name == other.crate_name && same_strings(&self.path, &other.path)
            && self.impl_block_number == other.impl_block_number
    }

    /// The last segment of the path, if the path has any.
    pub fn last_segment(&self) -> (r: Option<&String>)
        ensures
            r is None <==> self.path@.len() == 0,
            r is Some ==> r->0@ == self@.path.last(),
    {
        if self.path.len() == 0 {
            None
        } else {
            Some(&self.path[self.path.len() - 1])
        }
    }
}

impl PartialEq for Location {
    fn eq(&self, other: &Location) -> (r: bool) {
        self.same_as(other)
    }
}

impl vstd::std_specs::cmp::PartialEqSpecImpl for Location {
    open spec fn obeys_eq_spec() -> bool {
        true
    }

    open spec fn eq_spec(&self, other: &Location) -> bool {
        self@ == other@
    }
}

impl Eq for Location {
}

/// Two locations that differ only in their impl block number, one with none
/// and one with a number, are never equal.
pub proof fn lemma_impl_block_number_disambiguates(a: Location, b: Location)
    requires
        a.crate_name@ == b.crate_name@,
        views(a.path@) == views(b.path@),
        a.impl_block_number is None,
        b.impl_block_number is Some,
    ensures
        a@ != b@,
{
}

/// One segment of a host definition path.
#[derive(Clone, Debug)]
pub enum DefPathSegment {
    /// An impl block, with the number that tells it apart from its siblings.
    Impl(usize),
    /// Any other segment, as the host writes it.
    Named(String),
}

/// The host's path to a definition: the crate's name and the segments below
/// its root.
#[derive(Clone, Debug)]
pub struct DefPath {
    pub crate_name: String,
    pub segments: Vec<DefPathSegment>,
}

/// Why elevation gave up: the input cannot be represented faithfully.
#[derive(Clone, Copy, Debug, PartialEq, Eq, Structural)]
pub enum FatalError {
    /// A definition path runs through more than one impl block.
    NestedImplBlocks,
    /// An asynchronous function's output wraps something other than a
    /// coroutine.
    NotACoroutine,
}

/// The sentence that describes a fatal error.
pub open spec fn fatal_error_text(e: FatalError) -> Seq<char> {
    match e {
        FatalError::NestedImplBlocks => "deeply nested impl blocks currently unsupported"@,
        FatalError::NotACoroutine => "expected coroutine type for the output of an async function"@,
    }
}

impl FatalError {
    /// A sentence describing the error.
    pub fn message(&self) -> (r: String)
        ensures
            r@ == fatal_error_text(*self),
    {
        proof {
            reveal_strlit("deeply nested impl blocks currently unsupported");
            reveal_strlit("expected coroutine type for the output of an async function");
        }
        match self {
            FatalError::NestedImplBlocks => String::from_str(
                "deeply nested impl blocks currently unsupported",
            ),
            FatalError::NotACoroutine => String::from_str(
                "expected coroutine type for the output of an async function",
            ),
        }
    }
}

/// The path and impl block number that the segments `segs` give, or `None`
/// when they run through two impl blocks.
pub open spec fn fold_segments(segs: Seq<DefPathSegment>) -> Option<(Seq<Seq<char>>, Option<usize>)>
    decreases segs.len(),
{
    if segs.len() == 0 {
        Some((Seq::empty(), None))
    } else {
        match fold_segments(segs.drop_last()) {
            None => None,
            Some((path, ibn)) => match segs.last() {
                DefPathSegment::Impl(d) => if ibn is None {
                    Some((path, Some(d)))
                } else {
                    None
                },
                DefPathSegment::Named(s) => Some((path.push(s@), ibn)),
            },
        }
    }
}

/// The location of a definition path: its crate, its named segments in
/// order, and the number of the one impl block it passes through; `None` if
/// it passes through more than one.
pub open spec fn location_of(dp: DefPath) -> Option<LocationModel> {
    match fold_segments(dp.segments@) {
        Some((path, ibn)) => Some(
            LocationModel { crate_name: dp.crate_name@, path, impl_block_number: ibn },
        ),
        None => None,
    }
}

/// The location of a definition path; nested impl blocks are fatal.
pub fn def_path_to_rtk_location(dp: &DefPath) -> (r: Result<Location, FatalError>)
    ensures
        match r {
            Ok(loc) => location_of(*dp) == Some(loc@),
            Err(e) => location_of(*dp) is None && e == FatalError::NestedImplBlocks,
        },
{
    let mut path: Vec<String> = Vec::new();
    let mut ibn: Option<usize> = None;
    let mut i: usize = 0;
    while i < dp.segments.len()
        invariant
            i <= dp.segments@.len(),
            fold_segments(dp.segments@.subrange(0, i as int)) == Some((views(path@), ibn)),
        decreases dp.segments@.len() - i,
    {
        proof {
            let s = dp.segments@.subrange(0, i as int + 1);
            assert(s.drop_last() =~= dp.segments@.subrange(0, i as int));
        }
        match &dp.segments[i] {
            DefPathSegment::Impl(d) => {
                if ibn.is_some() {
                    proof {
                        lemma_fold_segments_none_extends(dp.segments@, i as int + 1);
                    }
                    return Err(FatalError::NestedImplBlocks);
                }
                ibn = Some(*d);
            },
            DefPathSegment::Named(s) => {
                let ghost before = path@;
                path.push(s.clone());
                proof {
                    assert(views(path@) =~= views(before).push(s@));
                }
            },
        }
        i = i + 1;
    }
    proof {
        assert(dp.segments@.subrange(0, i as int) =~= dp.segments@);
    }
    Ok(Location { crate_name: dp.crate_name.clone(), path, impl_block_number: ibn })
}

proof fn lemma_fold_segments_none_extends(segs: Seq<DefPathSegment>, n: int)
    requires
        0 <= n <= segs.len(),
        fold_segments(segs.subrange(0, n)) is None,
    ensures
        fold_segments(segs) is None,
    decreases segs.len() - n,
{
    if n < segs.len() {
        let s = segs.subrange(0, n + 1);
        assert(s.drop_last() =~= segs.subrange(0, n));
        lemma_fold_segments_none_extends(segs, n + 1);
    } else {
        assert(segs.subrange(0, n) =~= segs);
    }
}

/// The texts `parts` joined with `sep` between neighbours.
pub open spec fn join(parts: Seq<Seq<char>>, sep: Seq<char>) -> Seq<char>
    decreases parts.len(),
{
    if parts.len() == 0 {
        Seq::empty()
    } else if parts.len() == 1 {
        parts[0]
    } else {
        join(parts.drop_last(), sep) + sep + parts.last()
    }
}

pub open spec fn path_sep() -> Seq<char> {
    seq![':', ':']
}

/// How a location is written: `crate::a::b`, followed by `{impl#N}` when it
/// names an impl block.
pub open spec fn location_text(loc: LocationModel) -> Seq<char> {
    loc.crate_name + path_sep() + join(loc.path, path_sep()) + match loc.impl_block_number {
        Some(n) => seq!['{', 'i', 'm', 'p', 'l', '#'] + decimal_text(n as nat) + seq!['}'],
        None => Seq::empty(),
    }
}

/// Writes out a location.
pub fn fmt_rtk_location(loc: &Location) -> (r: String)
    ensures
        r@ == location_text(loc@),
{
    proof {
        reveal_strlit("::");
        reveal_strlit("{impl#");
        reveal_strlit("}");
    }
    let mut out = loc.crate_name.clone();
    out.append("::");
    let mut i: usize = 0;
    while i < loc.path.len()
        invariant
            i <= loc.path@.len(),
            out@ == loc.crate_name@ + path_sep() + join(views(loc.path@).subrange(0, i as int), path_sep()),
            "::"@ == path_sep(),
        decreases loc.path@.len() - i,
    {
        let ghost done = views(loc.path@).subrange(0, i as int);
        let ghost next = views(loc.path@).subrange(0, i as int + 1);
        proof {
            assert(next.drop_last() =~= done);
            assert(next.last() == loc.path@[i as int]@);
        }
        if i > 0 {
            out.append("::");
        }
        out.append(loc.path[i].as_str());
        proof {
            if i == 0 {
                assert(join(next, path_sep()) == next[0]);
                assert(join(done, path_sep()) =~= Seq::<char>::empty());
            }
        }
        i = i + 1;
    }
    proof {
        assert(views(loc.path@).subrange(0, i as int) =~= views(loc.path@));
    }
    match loc.impl_block_number {
        Some(n) => {
            out.append("{impl#");
            push_decimal(&mut out, n as u64);
            out.append("}");
        },
        None => {},
    }
    proof {
        assert(out@ =~= location_text(loc@));
    }
    out
}

/// A query for method calls: the method's location and, optionally, a query
/// that the call's receiver must itself match.
#[derive(Debug)]
pub struct MethodCallQuery {
    /// When present, the call must be made directly on the result of a call
    /// matching this query.
    pub parent: Option<Box<MethodCallQuery>>,
    /// The location of the method.
    pub location: Location,
}

/// The mathematical value of a [`MethodCallQuery`].
pub struct MethodCallQueryModel {
    pub parent: Option<Box<MethodCallQueryModel>>,
    pub location: LocationModel,
}

/// The mathematical value of a query.
pub open spec fn query_view(q: MethodCallQuery) -> MethodCallQueryModel
    decreases q,
{
    MethodCallQueryModel {
        parent: match q.parent {
            Some(p) => Some(Box::new(query_view(*p))),
            None => None,
        },
        location: q.location@,
    }
}

impl View for MethodCallQuery {
    type V = MethodCallQueryModel;

    open spec fn view(&self) -> MethodCallQueryModel {
        query_view(*self)
    }
}

impl MethodCallQuery {
    /// Whether two queries are the same, parents included.
    pub fn same_as(&self, other: &MethodCallQuery) -> (r: bool)
        ensures
            r == (self@ == other@),
        decreases self,
    {
        if !self.location.same_as(&other.location) {
            return false;
        }
        match (&self.parent, &other.parent) {
            (Some(a), Some(b)) => a.same_as(b),
            (None, None) => true,
            _ => false,
        }
    }
}

/// A copy of a query, parents included.
pub fn clone_query(q: &MethodCallQuery) -> (r: MethodCallQuery)
    ensures
        r@ == q@,
    decreases q,
{
    let parent = match &q.parent {
        Some(p) => Some(Box::new(clone_query(p))),
        None => None,
    };
    let location = clone_location(&q.location);
    MethodCallQuery { parent, location }
}

/// A copy of a location.
pub fn clone_location(l: &Location) -> (r: Location)
    ensures
        r@ == l@,
{
    let mut path: Vec<String> = Vec::new();
    let mut i: usize = 0;
    while i < l.path.len()
        invariant
            i <= l.path@.len(),
            views(path@) == views(l.path@).subrange(0, i as int),
        decreases l.path@.len() - i,
    {
        let ghost before = path@;
        path.push(l.path[i].clone());
        proof {
            assert(views(path@) =~= views(before).push(l.path@[i as int]@));
            assert(views(l.path@).subrange(0, i as int + 1) =~= views(l.path@).subrange(0, i as int).push(l.path@[i as int]@));
        }
        i = i + 1;
    }
    proof {
        assert(views(l.path@).subrange(0, i as int) =~= views(l.path@));
    }
    Location { crate_name: l.crate_name.clone(), path, impl_block_number: l.impl_block_number }
}

impl Clone for MethodCallQuery {
    fn clone(&self) -> (r: MethodCallQuery) {
        clone_query(self)
    }
}

impl PartialEq for MethodCallQuery {
    fn eq(&self, other: &MethodCallQuery) -> (r: bool) {
        self.same_as(other)
    }
}

impl vstd::std_specs::cmp::PartialEqSpecImpl for MethodCallQuery {
    open spec fn obeys_eq_spec() -> bool {
        true
    }

    open spec fn eq_spec(&self, other: &MethodCallQuery) -> bool {
        self@ == other@
    }
}

impl Eq for MethodCallQuery {
}

/// The owner of a host expression: the crate and index of the item whose
/// body holds it.
#[derive(Clone, Copy, Debug, PartialEq, Eq, Structural)]
pub struct HirId {
    pub owner_krate: usize,
    pub owner_index: usize,
}

/// The text that identifies an item body: `<crate>/<index>`.
pub open spec fn item_id_text(krate: nat, index: nat) -> Seq<char> {
    decimal_text(krate) + seq!['/'] + decimal_text(index)
}

/// Names the item body that holds a host node.
pub trait HirIdItemIdExt {
    spec fn item_id_spec(&self) -> Seq<char>;

    fn rtk_item_id(self) -> (r: String)
        ensures
            r@ == self.item_id_spec(),
    ;
}

impl HirIdItemIdExt for HirId {
    open spec fn item_id_spec(&self) -> Seq<char> {
        item_id_text(self.owner_krate as nat, self.owner_index as nat)
    }

    fn rtk_item_id(self) -> (r: String) {
        proof {
            reveal_strlit("/");
        }
        let mut out = String::new();
        push_decimal(&mut out, self.owner_krate as u64);
        out.append("/");
        push_decimal(&mut out, self.owner_index as u64);
        proof {
            assert(out@ =~= item_id_text(self.owner_krate as nat, self.owner_index as nat));
        }
        out
    }
}

} // verus!
