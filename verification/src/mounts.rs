//! The static mounts: which file under a mount's root a request path names,
//! and which paths are refused because they would leave the root.

use crate::text::chars_of;
use crate::text::texts;
use vstd::prelude::*;
use vstd::string::*;

verus! {

/// The pieces of `s` between its slashes. There is always one piece more
/// than there are slashes, and a piece may be empty.
pub open spec fn split_path(s: Seq<char>) -> Seq<Seq<char>>
    decreases s.len(),
{
    if s.len() == 0 {
        seq![Seq::empty()]
    } else {
        let before = split_path(s.drop_last());
        if s.last() == '/' {
            before.push(Seq::empty())
        } else {
            before.drop_last().push(before.last().push(s.last()))
        }
    }
}

/// A segment that names the directory it stands in: an empty one, or a
/// single dot.
pub open spec fn is_current(segment: Seq<char>) -> bool {
    segment.len() == 0 || segment == seq!['.']
}

/// The segment that names the parent directory: two dots.
pub open spec fn is_parent(segment: Seq<char>) -> bool {
    segment == seq!['.', '.']
}

/// A segment that names an entry of the directory it stands in, and nothing
/// else: it is not empty, not made of one or two dots, and holds neither a
/// slash nor a backslash.
pub open spec fn is_plain(segment: Seq<char>) -> bool {
    &&& !is_current(segment)
    &&& !is_parent(segment)
    &&& !segment.contains('/')
    &&& !segment.contains('\\')
}

/// One step of the walk from a mount's root. `below` holds the names from
/// the root down to the directory reached so far. A step up from the root
/// itself is refused, and so is a segment with a backslash, which some
/// systems read as a separator.
pub open spec fn walk_step(below: Seq<Seq<char>>, segment: Seq<char>) -> Option<Seq<Seq<char>>> {
    if is_current(segment) {
        Some(below)
    } else if is_parent(segment) {
        if below.len() > 0 {
            Some(below.drop_last())
        } else {
            None
        }
    } else if segment.contains('\\') {
        None
    } else {
        Some(below.push(segment))
    }
}

/// The walk from a mount's root along `segments`: the names from the root
/// down to what the segments lead to, or `None` where a step is refused.
pub open spec fn walk(segments: Seq<Seq<char>>) -> Option<Seq<Seq<char>>>
    decreases segments.len(),
{
    if segments.len() == 0 {
        Some(Seq::empty())
    } else {
        match walk(segments.drop_last()) {
            Some(below) => walk_step(below, segments.last()),
            None => None,
        }
    }
}

/// What is left of `path` below the mount point `prefix`: nothing where the
/// path is the mount point itself, the rest where the path goes on with a
/// slash after it, and `None` where the path is not under the mount.
pub open spec fn tail_under(prefix: Seq<char>, path: Seq<char>) -> Option<Seq<char>> {
    if path == prefix {
        Some(Seq::empty())
    } else if prefix.len() < path.len() && path.take(prefix.len() as int) == prefix
        && path[prefix.len() as int] == '/' {
        Some(path.skip(prefix.len() as int + 1))
    } else {
        None
    }
}

/// What a mount makes of a request path, over plain text.
pub enum LookupView {
    Outside,
    Rejected,
    Inside(Seq<Seq<char>>),
}

/// What the mount at `prefix` makes of `path`.
pub open spec fn lookup_of(prefix: Seq<char>, path: Seq<char>) -> LookupView {
    match tail_under(prefix, path) {
        None => LookupView::Outside,
        Some(tail) => match walk(split_path(tail)) {
            None => LookupView::Rejected,
            Some(below) => LookupView::Inside(below),
        },
    }
}

/// What a mount makes of a request path.
#[derive(Debug, PartialEq, Eq)]
pub enum MountLookup {
    /// The path is not under the mount.
    Outside,
    /// The path is under the mount but would leave its root.
    Rejected,
    /// The path names what lies under the root at these names, taken in
    /// order; none of them where it names the root itself.
    Inside(Vec<String>),
}

impl View for MountLookup {
    type V = LookupView;

    open spec fn view(&self) -> LookupView {
        match self {
            MountLookup::Outside => LookupView::Outside,
            MountLookup::Rejected => LookupView::Rejected,
            MountLookup::Inside(names) => LookupView::Inside(texts(names@)),
        }
    }
}

/// Whether the characters from `start` up to `end` hold `c`.
fn range_holds(chars: &Vec<char>, start: usize, end: usize, c: char) -> (r: bool)
    requires
        start <= end <= chars.len(),
    ensures
        r == chars@.subrange(start as int, end as int).contains(c),
{
    let ghost segment = chars@.subrange(start as int, end as int);
    let mut i: usize = start;
    while i < end
        invariant
            start <= i <= end <= chars.len(),
            segment == chars@.subrange(start as int, end as int),
            forall|j: int| 0 <= j < i - start ==> segment[j] != c,
        decreases end - i,
    {
        if chars[i] == c {
            assert(segment[i - start] == c);
            return true;
        }
        i += 1;
    }
    false
}

/// Takes one step of the walk with the segment that the characters from
/// `start` up to `end` of `tail` make. Gives `false`, and leaves `below` as
/// it is, where the step is refused.
fn take_step(below: &mut Vec<String>, tail: &str, chars: &Vec<char>, start: usize, end: usize) -> (ok:
    bool)
    requires
        chars@ == tail@,
        start <= end <= chars.len(),
    ensures
        ok <==> walk_step(texts(old(below)@), tail@.subrange(start as int, end as int)) is Some,
        ok ==> Some(texts(final(below)@)) == walk_step(
            texts(old(below)@),
            tail@.subrange(start as int, end as int),
        ),
        !ok ==> *final(below) == *old(below),
{
    let ghost segment = tail@.subrange(start as int, end as int);
    let length: usize = end - start;
    if length == 0 {
        return true;
    }
    if length == 1 && chars[start] == '.' {
        assert(segment =~= seq!['.']);
        return true;
    }
    if length == 2 && chars[start] == '.' && chars[start + 1] == '.' {
        assert(segment =~= seq!['.', '.']);
        if below.len() == 0 {
            return false;
        }
        below.pop();
        return true;
    }
    assert(!is_current(segment) && !is_parent(segment)) by {
        if segment == seq!['.'] {
            assert(segment.len() == 1 && segment[0] == '.');
        }
    }
    if range_holds(chars, start, end, '\\') {
        return false;
    }
    below.push(String::from_str(tail.substring_char(start, end)));
    true
}

/// Walks from a mount's root along the segments of `tail`. Gives the names
/// from the root down to what the tail names, or `None` where the walk would
/// leave the root.
pub fn walk_tail(tail: &str) -> (r: Option<Vec<String>>)
    ensures
        r is Some <==> walk(split_path(tail@)) is Some,
        r matches Some(below) ==> Some(texts(below@)) == walk(split_path(tail@)),
{
    let chars = chars_of(tail);
    let n: usize = chars.len();
    let mut below: Vec<String> = Vec::new();
    let mut ok: bool = true;
    let mut start: usize = 0;
    let mut i: usize = 0;
    while i < n
        invariant
            start <= i <= n,
            n == chars.len(),
            chars@ == tail@,
            split_path(chars@.take(i as int)).len() >= 1,
            split_path(chars@.take(i as int)).last() == chars@.subrange(start as int, i as int),
            ok ==> walk(split_path(chars@.take(i as int)).drop_last()) == Some(texts(below@)),
            !ok ==> walk(split_path(chars@.take(i as int)).drop_last()) is None,
        decreases n - i,
    {
        let ghost pieces = split_path(chars@.take(i as int));
        let ghost next = split_path(chars@.take(i + 1));
        assert(chars@.take(i + 1).drop_last() == chars@.take(i as int));
        if chars[i] == '/' {
            assert(next.drop_last() == pieces);
            if ok {
                ok = take_step(&mut below, tail, &chars, start, i);
            }
            start = i + 1;
        } else {
            proof {
                assert(next.drop_last() == pieces.drop_last());
                assert(chars@.subrange(start as int, i + 1) =~= chars@.subrange(
                    start as int,
                    i as int,
                ).push(chars@[i as int]));
            }
        }
        i += 1;
    }
    assert(chars@.take(i as int) == chars@);
    if ok {
        ok = take_step(&mut below, tail, &chars, start, n);
    }
    if ok {
        Some(below)
    } else {
        None
    }
}

/// Whether `chars` begins with `prefix`.
fn begins_with(chars: &Vec<char>, prefix: &Vec<char>) -> (r: bool)
    ensures
        r == (prefix.len() <= chars.len() && chars@.take(prefix.len() as int) == prefix@),
{
    if prefix.len() > chars.len() {
        return false;
    }
    let mut i: usize = 0;
    while i < prefix.len()
        invariant
            i <= prefix.len() <= chars.len(),
            forall|j: int| 0 <= j < i ==> chars@[j] == prefix@[j],
        decreases prefix.len() - i,
    {
        if chars[i] != prefix[i] {
            return false;
        }
        i += 1;
    }
    assert(chars@.take(prefix.len() as int) =~= prefix@);
    true
}

/// A rule that serves the files under one directory at one place of the
/// site.
#[derive(Debug, PartialEq, Eq)]
pub struct StaticMount {
    /// The path at which the mount stands, such as `/static`.
    pub url_prefix: String,
    /// The directory whose files it serves.
    pub fs_root: String,
    /// Whether a path that names a directory is answered with a listing.
    pub show_listing: bool,
}

/// A mount over plain text.
pub struct MountView {
    pub url_prefix: Seq<char>,
    pub fs_root: Seq<char>,
    pub show_listing: bool,
}

impl View for StaticMount {
    type V = MountView;

    open spec fn view(&self) -> MountView {
        MountView {
            url_prefix: self.url_prefix@,
            fs_root: self.fs_root@,
            show_listing: self.show_listing,
        }
    }
}

/// The mounts of a list.
pub open spec fn mounts_of(mounts: Seq<StaticMount>) -> Seq<MountView> {
    mounts.map_values(|mount: StaticMount| mount@)
}

/// The two mounts of the site: the static assets and the images, both with
/// listings.
pub open spec fn standard_mount_views() -> Seq<MountView> {
    seq![
        MountView { url_prefix: "/static"@, fs_root: "./public/static"@, show_listing: true },
        MountView { url_prefix: "/images"@, fs_root: "./public/images"@, show_listing: true },
    ]
}

/// The two mounts of the site, in the order in which they are tried.
pub fn standard_mounts() -> (mounts: Vec<StaticMount>)
    ensures
        mounts_of(mounts@) == standard_mount_views(),
{
    let mut mounts: Vec<StaticMount> = Vec::new();
    mounts.push(
        StaticMount {
            url_prefix: String::from_str("/static"),
            fs_root: String::from_str("./public/static"),
            show_listing: true,
        },
    );
    mounts.push(
        StaticMount {
            url_prefix: String::from_str("/images"),
            fs_root: String::from_str("./public/images"),
            show_listing: true,
        },
    );
    mounts
}

impl StaticMount {
    /// Finds what a request path names under this mount. A path that is the
    /// mount point, or goes on with a slash after it, is under the mount;
    /// what follows is walked segment by segment from the root, and a path
    /// that would leave the root is rejected. The path is taken as the text
    /// it is: nothing in it is decoded here. A caller that gets its paths
    /// percent-encoded decodes them before the call, or an encoded `..`
    /// counts as a plain name.
    pub fn lookup(&self, path: &str) -> (r: MountLookup)
        ensures
            r@ == lookup_of(self.url_prefix@, path@),
    {
        let prefix = chars_of(self.url_prefix.as_str());
        let chars = chars_of(path);
        if !begins_with(&chars, &prefix) {
            assert(path@ == self.url_prefix@ ==> path@.take(prefix.len() as int) =~= path@);
            return MountLookup::Outside;
        }
        let tail = if chars.len() == prefix.len() {
            assert(path@.take(prefix.len() as int) =~= path@);
            ""
        } else if chars[prefix.len()] == '/' {
            path.substring_char(prefix.len() + 1, chars.len())
        } else {
            return MountLookup::Outside;
        };
        proof {
            reveal_strlit("");
        }
        match walk_tail(tail) {
            Some(below) => MountLookup::Inside(below),
            None => MountLookup::Rejected,
        }
    }
}

/// No piece of a split path holds a slash.
pub proof fn lemma_split_pieces_hold_no_slash(s: Seq<char>)
    ensures
        split_path(s).len() >= 1,
        forall|i: int| 0 <= i < split_path(s).len() ==> !(#[trigger] split_path(s)[i]).contains('/'),
    decreases s.len(),
{
    if s.len() > 0 {
        lemma_split_pieces_hold_no_slash(s.drop_last());
        let before = split_path(s.drop_last());
        if s.last() != '/' {
            let grown = before.last().push(s.last());
            assert forall|k: int| 0 <= k < grown.len() implies grown[k] != '/' by {}
        }
    }
}

/// The walk gives plain names only: where no segment holds a slash, every
/// name that the walk gives names an entry of the directory above it and
/// nothing else.
pub proof fn lemma_walk_gives_plain_names(segments: Seq<Seq<char>>)
    requires
        forall|i: int| 0 <= i < segments.len() ==> !(#[trigger] segments[i]).contains('/'),
    ensures
        walk(segments) matches Some(below) ==> forall|j: int|
            0 <= j < below.len() ==> is_plain(#[trigger] below[j]),
    decreases segments.len(),
{
    if segments.len() > 0 {
        let rest = segments.drop_last();
        assert forall|i: int| 0 <= i < rest.len() implies !(#[trigger] rest[i]).contains('/') by {}
        lemma_walk_gives_plain_names(rest);
    }
}

/// A path that a mount takes in stays under the mount's root: every name
/// on the way down is a plain name.
pub proof fn lemma_inside_is_contained(prefix: Seq<char>, path: Seq<char>)
    ensures
        lookup_of(prefix, path) matches LookupView::Inside(below) ==> forall|j: int|
            0 <= j < below.len() ==> is_plain(#[trigger] below[j]),
{
    if let Some(tail) = tail_under(prefix, path) {
        lemma_split_pieces_hold_no_slash(tail);
        lemma_walk_gives_plain_names(split_path(tail));
    }
}

/// Once a walk has been refused, nothing that follows brings it back.
pub proof fn lemma_refusal_is_final(first: Seq<Seq<char>>, then: Seq<Seq<char>>)
    requires
        walk(first) is None,
    ensures
        walk(first + then) is None,
    decreases then.len(),
{
    if then.len() > 0 {
        assert((first + then).drop_last() =~= first + then.drop_last());
        lemma_refusal_is_final(first, then.drop_last());
    }
}

/// Splitting goes through a slash: the pieces of `a`, a slash and `b` are
/// the pieces of `a` followed by those of `b`.
pub proof fn lemma_split_at_slash(a: Seq<char>, b: Seq<char>)
    ensures
        split_path(a + seq!['/'] + b) == split_path(a) + split_path(b),
    decreases b.len(),
{
    let whole = a + seq!['/'] + b;
    if b.len() == 0 {
        assert(whole.drop_last() =~= a);
    } else {
        assert(whole.drop_last() =~= a + seq!['/'] + b.drop_last());
        lemma_split_at_slash(a, b.drop_last());
        lemma_split_pieces_hold_no_slash(b.drop_last());
        let before = split_path(b.drop_last());
        if b.last() == '/' {
            assert((split_path(a) + before).push(Seq::empty()) =~= split_path(a) + before.push(
                Seq::empty(),
            ));
        } else {
            let joined = split_path(a) + before;
            assert(joined.drop_last().push(joined.last().push(b.last())) =~= split_path(a)
                + before.drop_last().push(before.last().push(b.last())));
        }
    }
}

/// A path is rejected as soon as it would leave the root, whatever follows:
/// where the walk along `a` is refused, so is the walk along `a`, a slash
/// and any `b`.
pub proof fn lemma_leaving_the_root_is_rejected(a: Seq<char>, b: Seq<char>)
    requires
        walk(split_path(a)) is None,
    ensures
        walk(split_path(a + seq!['/'] + b)) is None,
{
    lemma_split_at_slash(a, b);
    lemma_refusal_is_final(split_path(a), split_path(b));
}

/// A text without a slash is one piece.
pub proof fn lemma_split_without_slash(s: Seq<char>)
    requires
        !s.contains('/'),
    ensures
        split_path(s) == seq![s],
    decreases s.len(),
{
    if s.len() > 0 {
        let shorter = s.drop_last();
        assert forall|i: int| 0 <= i < shorter.len() implies shorter[i] != '/' by {
            assert(s.contains(s[i]));
        }
        lemma_split_without_slash(shorter);
        assert(s.contains(s.last()));
        assert(shorter.push(s.last()) =~= s);
        assert(seq![shorter].drop_last().push(seq![shorter].last().push(s.last())) =~= seq![s]);
    } else {
        assert(s =~= Seq::empty());
    }
}

/// A path that begins with a step up from the root is rejected, whatever
/// follows.
pub proof fn lemma_step_up_at_root_is_rejected(rest: Seq<char>)
    ensures
        walk(split_path(seq!['.', '.'])) is None,
        walk(split_path(seq!['.', '.'] + seq!['/'] + rest)) is None,
{
    let up = seq!['.', '.'];
    assert(!up.contains('/'));
    lemma_split_without_slash(up);
    assert(seq![up].drop_last() =~= Seq::<Seq<char>>::empty());
    reveal_with_fuel(walk, 2);
    lemma_leaving_the_root_is_rejected(up, rest);
}

} // verus!
