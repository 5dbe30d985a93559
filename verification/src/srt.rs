//! Stream-ID routing of the SRT server source: which caller stream IDs are accepted and the
//! name of the source pad that each accepted stream ID is routed to.

use vstd::prelude::*;

use crate::text::{
    chars_lt,
    chars_of, string_of_range, decimal, decimal_chars, is_blank, join_strings, join_with, lemma_decimal_injective,
    lemma_split_join, lemma_trim_idempotent, sort_strings, split_chars, split_on, strictly_sorted, string_of, trim,
    trim_str, views,
};

verus! {

/// A stream ID and the name of the pad that its caller's payload goes to.
#[derive(Debug, Clone)]
pub struct StreamRoute {
    pub stream_id: String,
    pub pad_name: String,
}

/// Entries as (stream ID, pad name) pairs.
pub type RouteEntries = Seq<(Seq<char>, Seq<char>)>;

/// Whether `id` is routed in `e`.
pub open spec fn has_id(e: RouteEntries, id: Seq<char>) -> bool {
    exists|i: int| 0 <= i < e.len() && (#[trigger] e[i]).0 == id
}

/// Whether some route of `e` uses the pad name `name`.
pub open spec fn name_used(e: RouteEntries, name: Seq<char>) -> bool {
    exists|i: int| 0 <= i < e.len() && (#[trigger] e[i]).1 == name
}

/// No stream ID is routed twice.
pub open spec fn ids_unique(e: RouteEntries) -> bool {
    forall|i: int, j: int| 0 <= i < j < e.len() ==> (#[trigger] e[i]).0 != (#[trigger] e[j]).0
}

/// No pad name is used twice.
pub open spec fn names_unique(e: RouteEntries) -> bool {
    forall|i: int, j: int| 0 <= i < j < e.len() ==> (#[trigger] e[i]).1 != (#[trigger] e[j]).1
}

/// Every routed stream ID is trimmed and not empty.
pub open spec fn ids_trimmed(e: RouteEntries) -> bool {
    forall|i: int| 0 <= i < e.len() ==> trim((#[trigger] e[i]).0) == e[i].0 && e[i].0.len() > 0
}

/// The set of routed stream IDs.
pub open spec fn id_set(e: RouteEntries) -> Set<Seq<char>> {
    Set::new(|id: Seq<char>| has_id(e, id))
}

/// Characters kept in a pad name: ASCII letters and digits, `-` and `_`.
pub open spec fn pad_name_char(c: char) -> bool {
    ('a' <= c && c <= 'z') || ('A' <= c && c <= 'Z') || ('0' <= c && c <= '9') || c == '-' || c
        == '_'
}

/// `stream_id` with every character that cannot stand in a pad name replaced by `_`.
pub open spec fn sanitized(stream_id: Seq<char>) -> Seq<char> {
    stream_id.map_values(|c: char| if pad_name_char(c) { c } else { '_' })
}

/// `src`, the name of the first pad.
pub open spec fn first_pad_name() -> Seq<char> {
    seq!['s', 'r', 'c']
}

/// Pad-name sanitizing works character by character: ASCII letters of either case, ASCII
/// digits, `-` and `_` stay as they are, and every other character becomes `_`.
pub proof fn lemma_sanitized_keeps_ascii_alphanumerics(stream_id: Seq<char>)
    ensures
        sanitized(stream_id).len() == stream_id.len(),
        forall|i: int|
            #![trigger sanitized(stream_id)[i]]
            0 <= i < stream_id.len() ==> {
                let u = stream_id[i] as int;
                let kept = (0x30 <= u <= 0x39) || (0x41 <= u <= 0x5a) || (0x61 <= u <= 0x7a) || u
                    == 0x2d || u == 0x5f;
                &&& kept ==> sanitized(stream_id)[i] == stream_id[i]
                &&& !kept ==> sanitized(stream_id)[i] == '_'
            },
{
    assert forall|i: int| #![trigger sanitized(stream_id)[i]] 0 <= i < stream_id.len() implies {
        let u = stream_id[i] as int;
        let kept = (0x30 <= u <= 0x39) || (0x41 <= u <= 0x5a) || (0x61 <= u <= 0x7a) || u == 0x2d
            || u == 0x5f;
        &&& kept ==> sanitized(stream_id)[i] == stream_id[i]
        &&& !kept ==> sanitized(stream_id)[i] == '_'
    } by {
        let c = stream_id[i];
        assert(('a' as int) == 0x61 && ('z' as int) == 0x7a && ('A' as int) == 0x41 && ('Z' as int)
            == 0x5a && ('0' as int) == 0x30 && ('9' as int) == 0x39 && ('-' as int) == 0x2d && ('_' as int)
            == 0x5f);
    }
}

/// `src_<sanitized stream ID>`.
pub open spec fn pad_base(stream_id: Seq<char>) -> Seq<char> {
    seq!['s', 'r', 'c', '_'] + sanitized(stream_id)
}

/// `<base>_<k>`.
pub open spec fn numbered(base: Seq<char>, k: nat) -> Seq<char> {
    base + seq!['_'] + decimal(k)
}

/// The least `j >= k` for which `<base>_<j>` is unused in `e`, searching no further than
/// `e.len() + 1`.
pub open spec fn first_free(e: RouteEntries, base: Seq<char>, k: nat) -> nat
    decreases e.len() + 1 - k,
{
    if k >= e.len() + 1 || !name_used(e, numbered(base, k)) {
        k
    } else {
        first_free(e, base, k + 1)
    }
}

/// The pad name that a newly accepted `stream_id` gets: `src` for the first route, else
/// `src_<id>`, or `src_<id>_<n>` with the least `n >= 1` that is free.
pub open spec fn next_pad_name(e: RouteEntries, stream_id: Seq<char>) -> Seq<char> {
    if e.len() == 0 {
        first_pad_name()
    } else if !name_used(e, pad_base(stream_id)) {
        pad_base(stream_id)
    } else {
        numbered(pad_base(stream_id), first_free(e, pad_base(stream_id), 1))
    }
}

proof fn lemma_numbered_injective(base: Seq<char>, a: nat, b: nat)
    requires
        numbered(base, a) == numbered(base, b),
    ensures
        a == b,
{
    let n: int = base.len() as int + 1;
    assert(numbered(base, a).subrange(n, numbered(base, a).len() as int) =~= decimal(a));
    assert(numbered(base, b).subrange(n, numbered(base, b).len() as int) =~= decimal(b));
    lemma_decimal_injective(a, b);
}

/// Among `<base>_1` .. `<base>_<len + 1>` at least one name is free.
proof fn lemma_some_numbered_free(e: RouteEntries, base: Seq<char>)
    ensures
        exists|k: nat| 1 <= k <= e.len() + 1 && !name_used(e, #[trigger] numbered(base, k)),
{
    let cand = Seq::new((e.len() + 1) as nat, |i: int| numbered(base, (i + 1) as nat));
    let names = e.map_values(|p: (Seq<char>, Seq<char>)| p.1);
    if forall|k: nat| 1 <= k <= e.len() + 1 ==> name_used(e, #[trigger] numbered(base, k)) {
        assert(cand.no_duplicates()) by {
            assert forall|i: int, j: int| 0 <= i < cand.len() && 0 <= j < cand.len() && i != j implies cand[i]
                != cand[j] by {
                if cand[i] == cand[j] {
                    lemma_numbered_injective(base, (i + 1) as nat, (j + 1) as nat);
                }
            }
        }
        cand.unique_seq_to_set();
        names.lemma_cardinality_of_set();
        assert(cand.to_set().subset_of(names.to_set())) by {
            assert forall|x: Seq<char>| cand.to_set().contains(x) implies names.to_set().contains(
                x,
            ) by {
                let i = choose|i: int| 0 <= i < cand.len() && cand[i] == x;
                assert(name_used(e, numbered(base, (i + 1) as nat)));
                let j = choose|j: int| 0 <= j < e.len() && (#[trigger] e[j]).1 == numbered(
                    base,
                    (i + 1) as nat,
                );
                assert(names[j] == x);
            }
        }
        vstd::set_lib::lemma_len_subset(cand.to_set(), names.to_set());
    }
}

proof fn lemma_first_free_is_free(e: RouteEntries, base: Seq<char>, k: nat)
    requires
        1 <= k,
        forall|j: nat| 1 <= j < k ==> name_used(e, #[trigger] numbered(base, j)),
    ensures
        !name_used(e, numbered(base, first_free(e, base, k))),
        1 <= first_free(e, base, k) <= e.len() + 1 || first_free(e, base, k) == k,
    decreases e.len() + 1 - k,
{
    if k >= e.len() + 1 || !name_used(e, numbered(base, k)) {
        if name_used(e, numbered(base, k)) {
            lemma_some_numbered_free(e, base);
            let j = choose|j: nat| 1 <= j <= e.len() + 1 && !name_used(e, #[trigger] numbered(base, j));
            if j < k {
                assert(name_used(e, numbered(base, j)));
            }
        }
    } else {
        lemma_first_free_is_free(e, base, k + 1);
    }
}

/// The pad name chosen for a new stream ID is not used by any route.
pub proof fn lemma_next_pad_name_fresh(e: RouteEntries, stream_id: Seq<char>)
    ensures
        !name_used(e, next_pad_name(e, stream_id)),
{
    if e.len() != 0 && name_used(e, pad_base(stream_id)) {
        lemma_first_free_is_free(e, pad_base(stream_id), 1);
    }
}

/// The stream IDs named by `requested`: each one trimmed, blank ones left out.
pub open spec fn requested_ids(requested: Seq<Seq<char>>) -> Set<Seq<char>> {
    Set::new(
        |t: Seq<char>|
            exists|k: int| 0 <= k < requested.len() && !is_blank(#[trigger] requested[k]) && trim(requested[k]) == t,
    )
}

proof fn lemma_id_set_push(e: RouteEntries, p: (Seq<char>, Seq<char>))
    ensures
        id_set(e.push(p)) == id_set(e).insert(p.0),
{
    assert forall|x: Seq<char>| id_set(e.push(p)).contains(x) <==> id_set(e).insert(p.0).contains(x) by {
        if has_id(e.push(p), x) {
            let i = choose|i: int| 0 <= i < e.push(p).len() && (#[trigger] e.push(p)[i]).0 == x;
            if i < e.len() {
                assert(e[i] == e.push(p)[i]);
            }
        }
        if has_id(e, x) {
            let i = choose|i: int| 0 <= i < e.len() && (#[trigger] e[i]).0 == x;
            assert(e.push(p)[i] == e[i]);
        }
        if x == p.0 {
            assert(e.push(p)[e.len() as int] == p);
        }
    }
    assert(id_set(e.push(p)) =~= id_set(e).insert(p.0));
}

proof fn lemma_remove_keeps_unique(e: RouteEntries, i: int)
    requires
        0 <= i < e.len(),
        ids_unique(e),
        names_unique(e),
        ids_trimmed(e),
    ensures
        ids_unique(e.remove(i)),
        names_unique(e.remove(i)),
        ids_trimmed(e.remove(i)),
        id_set(e.remove(i)) == id_set(e).remove(e[i].0),
{
    let r = e.remove(i);
    assert forall|a: int, b: int| 0 <= a < b < r.len() implies (#[trigger] r[a]).0 != (#[trigger] r[b]).0
        && r[a].1 != r[b].1 by {
        let a2 = if a < i { a } else { a + 1 };
        let b2 = if b < i { b } else { b + 1 };
        assert(r[a] == e[a2]);
        assert(r[b] == e[b2]);
    }
    assert forall|a: int| 0 <= a < r.len() implies trim((#[trigger] r[a]).0) == r[a].0 && r[a].0.len()
        > 0 by {
        let a2 = if a < i { a } else { a + 1 };
        assert(r[a] == e[a2]);
    }
    assert forall|x: Seq<char>| id_set(r).contains(x) <==> id_set(e).remove(e[i].0).contains(x) by {
        if has_id(r, x) {
            let a = choose|a: int| 0 <= a < r.len() && (#[trigger] r[a]).0 == x;
            let a2 = if a < i { a } else { a + 1 };
            assert(r[a] == e[a2]);
        }
        if has_id(e, x) && x != e[i].0 {
            let a = choose|a: int| 0 <= a < e.len() && (#[trigger] e[a]).0 == x;
            if a < i {
                assert(r[a] == e[a]);
            } else {
                assert(a != i);
                assert(r[a - 1] == e[a]);
            }
        }
    }
    assert(id_set(r) =~= id_set(e).remove(e[i].0));
}

/// The routes are well formed: every stream ID is routed once, trimmed and not empty, and every
/// pad name is used once.
pub open spec fn routes_well_formed(e: RouteEntries) -> bool {
    ids_unique(e) && names_unique(e) && ids_trimmed(e)
}

/// The routes of `e` whose stream ID is among `requested`, in their order and with their pads.
pub open spec fn kept_routes(e: RouteEntries, requested: Seq<Seq<char>>) -> RouteEntries
    decreases e.len(),
{
    if e.len() == 0 {
        e
    } else {
        let k = kept_routes(e.drop_last(), requested);
        if requested.contains(e.last().0) {
            k.push(e.last())
        } else {
            k
        }
    }
}

/// The routes after accepting `stream_id`: unchanged for a blank or already accepted ID, else
/// the trimmed ID appended with the next pad name.
pub open spec fn with_added(e: RouteEntries, stream_id: Seq<char>) -> RouteEntries {
    let id = trim(stream_id);
    if is_blank(stream_id) || has_id(e, id) {
        e
    } else {
        e.push((id, next_pad_name(e, id)))
    }
}

/// The routes after accepting each of `stream_ids` in turn.
pub open spec fn with_all_added(e: RouteEntries, stream_ids: Seq<Seq<char>>) -> RouteEntries
    decreases stream_ids.len(),
{
    if stream_ids.len() == 0 {
        e
    } else {
        with_added(with_all_added(e, stream_ids.drop_last()), stream_ids.last())
    }
}

/// The routes after making `requested` the accepted stream IDs: the routes of the IDs among
/// them stay, with their pads and in their order; the others are dropped; then each requested
/// ID that is not routed yet is accepted in turn and gets the next pad name for the routes so
/// far.
pub open spec fn routes_after_setting(e: RouteEntries, requested: Seq<Seq<char>>) -> RouteEntries {
    with_all_added(kept_routes(e, requested), requested)
}

proof fn lemma_kept_routes(e: RouteEntries, requested: Seq<Seq<char>>)
    requires
        routes_well_formed(e),
    ensures
        routes_well_formed(kept_routes(e, requested)),
        forall|a: int|
            #![trigger kept_routes(e, requested)[a]]
            0 <= a < kept_routes(e, requested).len() ==> exists|i: int|
                0 <= i < e.len() && #[trigger] e[i] == kept_routes(e, requested)[a],
        id_set(kept_routes(e, requested)) == id_set(e).intersect(requested.to_set()),
    decreases e.len(),
{
    let k = kept_routes(e, requested);
    if e.len() == 0 {
        assert(id_set(e) =~= Set::<Seq<char>>::empty());
        assert(id_set(k) =~= id_set(e).intersect(requested.to_set()));
    } else {
        let d = e.drop_last();
        let p = e.last();
        assert(routes_well_formed(d)) by {
            assert forall|a: int, b: int| 0 <= a < b < d.len() implies (#[trigger] d[a]).0 != (
            #[trigger] d[b]).0 && d[a].1 != d[b].1 by {
                assert(d[a] == e[a] && d[b] == e[b]);
            }
            assert forall|a: int| 0 <= a < d.len() implies trim((#[trigger] d[a]).0) == d[a].0
                && d[a].0.len() > 0 by {
                assert(d[a] == e[a]);
            }
        }
        lemma_kept_routes(d, requested);
        let k0 = kept_routes(d, requested);
        assert(e =~= d.push(p));
        lemma_id_set_push(d, p);
        if requested.contains(p.0) {
            assert(k == k0.push(p));
            assert forall|a: int| 0 <= a < k0.len() implies (#[trigger] k0[a]).0 != p.0 && k0[a].1
                != p.1 by {
                let i = choose|i: int| 0 <= i < d.len() && #[trigger] d[i] == k0[a];
                assert(e[i] == d[i]);
                assert(e[e.len() - 1] == p);
            }
            assert forall|a: int, b: int| 0 <= a < b < k.len() implies (#[trigger] k[a]).0 != (
            #[trigger] k[b]).0 && k[a].1 != k[b].1 by {
                assert(k[a] == k0[a]);
                if b < k0.len() {
                    assert(k[b] == k0[b]);
                } else {
                    assert(k[b] == p);
                }
            }
            assert forall|a: int| 0 <= a < k.len() implies trim((#[trigger] k[a]).0) == k[a].0
                && k[a].0.len() > 0 by {
                if a < k0.len() {
                    assert(k[a] == k0[a]);
                } else {
                    assert(k[a] == e[e.len() - 1]);
                }
            }
            assert forall|a: int| #![trigger k[a]] 0 <= a < k.len() implies exists|i: int|
                0 <= i < e.len() && #[trigger] e[i] == k[a] by {
                if a < k0.len() {
                    assert(k[a] == k0[a]);
                    let i = choose|i: int| 0 <= i < d.len() && #[trigger] d[i] == k0[a];
                    assert(e[i] == d[i]);
                } else {
                    assert(e[e.len() - 1] == k[a]);
                }
            }
            lemma_id_set_push(k0, p);
            assert(id_set(k) =~= id_set(e).intersect(requested.to_set()));
        } else {
            assert(k == k0);
            assert forall|a: int| #![trigger k[a]] 0 <= a < k.len() implies exists|i: int|
                0 <= i < e.len() && #[trigger] e[i] == k[a] by {
                let i = choose|i: int| 0 <= i < d.len() && #[trigger] d[i] == k0[a];
                assert(e[i] == d[i]);
            }
            assert(id_set(k) =~= id_set(e).intersect(requested.to_set()));
        }
    }
}

/// Whatever calls built them, routes are well formed; so each ID that `stream_ids` lists is
/// trimmed, not empty and listed once, and has a pad.
pub proof fn lemma_listed_ids_have_pads(e: RouteEntries, ids: Seq<Seq<char>>)
    requires
        routes_well_formed(e),
        strictly_sorted(ids),
        ids.to_set() == id_set(e),
    ensures
        ids.no_duplicates(),
        forall|k: int|
            0 <= k < ids.len() ==> trim(#[trigger] ids[k]) == ids[k] && ids[k].len() > 0 && exists|
                i: int,
            |
                0 <= i < e.len() && (#[trigger] e[i]).0 == ids[k],
{
    assert forall|k: int| 0 <= k < ids.len() implies trim(#[trigger] ids[k]) == ids[k] && ids[k].len()
        > 0 && exists|i: int| 0 <= i < e.len() && (#[trigger] e[i]).0 == ids[k] by {
        assert(ids.to_set().contains(ids[k]));
        assert(has_id(e, ids[k]));
        let j = choose|j: int| 0 <= j < e.len() && (#[trigger] e[j]).0 == ids[k];
        assert(trim(e[j].0) == e[j].0);
    }
    assert forall|a: int, b: int| 0 <= a < ids.len() && 0 <= b < ids.len() && a != b implies ids[a]
        != ids[b] by {
        if a < b {
            assert(chars_lt(ids[a], ids[b]));
            if ids[a] == ids[b] {
                crate::text::lemma_chars_lt_irreflexive(ids[a]);
            }
        } else {
            assert(chars_lt(ids[b], ids[a]));
            if ids[a] == ids[b] {
                crate::text::lemma_chars_lt_irreflexive(ids[a]);
            }
        }
    }
}

/// The accepted stream IDs of the SRT server source and the pad of each.
///
/// Every stream ID is routed at most once and every pad name is used at most once.
pub struct StreamRoutes {
    routes: Vec<StreamRoute>,
}

impl View for StreamRoutes {
    type V = RouteEntries;

    closed spec fn view(&self) -> RouteEntries {
        self.routes@.map_values(|r: StreamRoute| (r.stream_id@, r.pad_name@))
    }
}

impl StreamRoutes {
    #[verifier::type_invariant]
    spec fn well_formed(self) -> bool {
        ids_unique(self@) && names_unique(self@) && ids_trimmed(self@)
    }

    /// No stream ID accepted.
    pub fn new() -> (s: Self)
        ensures
            s@.len() == 0,
            routes_well_formed(s@),
    {
        let s = StreamRoutes { routes: Vec::new() };
        assert(s@ =~= Seq::<(Seq<char>, Seq<char>)>::empty());
        s
    }

    fn position_of(&self, stream_id: &Vec<char>) -> (r: Option<usize>)
        ensures
            match r {
                Some(i) => i < self@.len() && self@[i as int].0 == stream_id@,
                None => !has_id(self@, stream_id@),
            },
    {
        let mut i: usize = 0;
        while i < self.routes.len()
            invariant
                i <= self.routes.len() == self@.len(),
                forall|k: int| 0 <= k < i ==> (#[trigger] self@[k]).0 != stream_id@,
            decreases self.routes.len() - i,
        {
            let id = chars_of(self.routes[i].stream_id.as_str());
            assert(self@[i as int].0 == id@);
            if crate::text::chars_equal(&id, stream_id) {
                return Some(i);
            }
            i = i + 1;
        }
        None
    }

    fn name_taken(&self, name: &Vec<char>) -> (b: bool)
        ensures
            b == name_used(self@, name@),
    {
        let mut i: usize = 0;
        while i < self.routes.len()
            invariant
                i <= self.routes.len() == self@.len(),
                forall|k: int| 0 <= k < i ==> (#[trigger] self@[k]).1 != name@,
            decreases self.routes.len() - i,
        {
            let n = chars_of(self.routes[i].pad_name.as_str());
            assert(self@[i as int].1 == n@);
            if crate::text::chars_equal(&n, name) {
                return true;
            }
            i = i + 1;
        }
        false
    }

    /// The name for the pad of a newly accepted `stream_id`.
    fn choose_pad_name(&self, stream_id: &Vec<char>) -> (name: Vec<char>)
        ensures
            name@ == next_pad_name(self@, stream_id@),
    {
        if self.routes.len() == 0 {
            let mut v: Vec<char> = Vec::new();
            v.push('s');
            v.push('r');
            v.push('c');
            assert(v@ =~= first_pad_name());
            return v;
        }
        let base = pad_base_chars(stream_id);
        if !self.name_taken(&base) {
            return base;
        }
        let ghost e = self@;
        let mut index: u128 = 1;
        loop
            invariant
                1 <= index <= e.len() + 1,
                e == self@,
                e.len() != 0,
                base@ == pad_base(stream_id@),
                name_used(e, base@),
                self@.len() == self.routes.len(),
                first_free(e, base@, 1) == first_free(e, base@, index as nat),
                forall|j: nat| 1 <= j < index ==> name_used(e, #[trigger] numbered(base@, j)),
            decreases e.len() + 1 - index,
        {
            let candidate = numbered_chars(&base, index);
            if !self.name_taken(&candidate) {
                assert(first_free(e, base@, index as nat) == index as nat);
                return candidate;
            }
            proof {
                if index == e.len() + 1 {
                    lemma_first_free_is_free(e, base@, index as nat);
                }
            }
            index = index + 1;
        }
    }

    /// Accepts `stream_id`, trimmed, and gives it a pad unless it is already accepted. A blank ID
    /// is ignored.
    pub fn add_stream_id(&mut self, stream_id: &str)
        ensures
            ({
                let id = trim(stream_id@);
                if is_blank(stream_id@) || has_id(old(self)@, id) {
                    final(self)@ == old(self)@
                } else {
                    final(self)@ == old(self)@.push((id, next_pad_name(old(self)@, id)))
                }
            }),
            !is_blank(stream_id@) ==> has_id(final(self)@, trim(stream_id@)),
            id_set(final(self)@) == if is_blank(stream_id@) {
                id_set(old(self)@)
            } else {
                id_set(old(self)@).insert(trim(stream_id@))
            },
            routes_well_formed(final(self)@),
    {
        proof {
            use_type_invariant(&*self);
        }
        let id = trim_str(stream_id);
        let id_chars = chars_of(id.as_str());
        if id_chars.len() == 0 {
            return;
        }
        if self.position_of(&id_chars).is_some() {
            assert(id_set(self@) =~= id_set(self@).insert(id_chars@));
            return;
        }
        let name = self.choose_pad_name(&id_chars);
        proof {
            lemma_next_pad_name_fresh(self@, id_chars@);
        }
        let route = StreamRoute { stream_id: id, pad_name: string_of(&name) };
        let ghost before = self@;
        let mut routes: Vec<StreamRoute> = Vec::new();
        std::mem::swap(&mut routes, &mut self.routes);
        routes.push(route);
        assert(routes@.map_values(|r: StreamRoute| (r.stream_id@, r.pad_name@)) =~= before.push(
            (id_chars@, name@),
        ));
        proof {
            lemma_trim_idempotent(stream_id@);
            let after = before.push((id_chars@, name@));
            assert forall|i: int| 0 <= i < after.len() implies trim((#[trigger] after[i]).0)
                == after[i].0 && after[i].0.len() > 0 by {
                if i < before.len() {
                    assert(after[i] == before[i]);
                }
            }
        }
        self.routes = routes;
        proof {
            lemma_id_set_push(before, (id_chars@, name@));
            assert(self@[before.len() as int].0 == id_chars@);
        }
    }
}

impl StreamRoutes {
    fn remove_at(&mut self, i: usize)
        requires
            i < old(self)@.len(),
        ensures
            final(self)@ == old(self)@.remove(i as int),
            id_set(final(self)@) == id_set(old(self)@).remove(old(self)@[i as int].0),
    {
        proof {
            use_type_invariant(&*self);
            lemma_remove_keeps_unique(self@, i as int);
        }
        let ghost before = self@;
        let mut routes: Vec<StreamRoute> = Vec::new();
        std::mem::swap(&mut routes, &mut self.routes);
        routes.remove(i);
        assert(routes@.map_values(|r: StreamRoute| (r.stream_id@, r.pad_name@)) =~= before.remove(
            i as int,
        ));
        self.routes = routes;
    }

    /// Stops accepting `stream_id`, trimmed, and drops its pad; returns whether it was accepted.
    pub fn remove_stream_id(&mut self, stream_id: &str) -> (removed: bool)
        ensures
            removed == has_id(old(self)@, trim(stream_id@)),
            removed ==> exists|i: int|
                0 <= i < old(self)@.len() && (#[trigger] old(self)@[i]).0 == trim(stream_id@)
                    && final(self)@ == old(self)@.remove(i),
            !removed ==> final(self)@ == old(self)@,
            !has_id(final(self)@, trim(stream_id@)),
            id_set(final(self)@) == id_set(old(self)@).remove(trim(stream_id@)),
            routes_well_formed(final(self)@),
    {
        proof {
            use_type_invariant(&*self);
        }
        let id = trim_str(stream_id);
        let id_chars = chars_of(id.as_str());
        match self.position_of(&id_chars) {
            Some(i) => {
                self.remove_at(i);
                proof {
                    use_type_invariant(&*self);
                    assert(!id_set(self@).contains(id@));
                }
                true
            },
            None => {
                assert(id_set(self@) =~= id_set(self@).remove(id@));
                false
            },
        }
    }

    /// Stops accepting every stream ID.
    pub fn clear_stream_ids(&mut self)
        ensures
            final(self)@.len() == 0,
            routes_well_formed(final(self)@),
    {
        let empty = StreamRoutes::new();
        *self = empty;
    }

    /// The accepted stream IDs, in increasing order.
    pub fn stream_ids(&self) -> (ids: Vec<String>)
        ensures
            strictly_sorted(views(ids@)),
            views(ids@).to_set() == id_set(self@),
            ids.len() == self@.len(),
            routes_well_formed(self@),
    {
        proof {
            use_type_invariant(self);
        }
        let mut raw: Vec<String> = Vec::new();
        let mut i: usize = 0;
        while i < self.routes.len()
            invariant
                i <= self.routes.len() == self@.len(),
                views(raw@) == self@.take(i as int).map_values(|p: (Seq<char>, Seq<char>)| p.0),
            decreases self.routes.len() - i,
        {
            let ghost before = views(raw@);
            raw.push(self.routes[i].stream_id.clone());
            assert(views(raw@) =~= before.push(self@[i as int].0));
            assert(self@.take(i + 1).map_values(|p: (Seq<char>, Seq<char>)| p.0) =~= self@.take(
                i as int,
            ).map_values(|p: (Seq<char>, Seq<char>)| p.0).push(self@[i as int].0));
            i = i + 1;
        }
        let ghost ids_seq = self@.map_values(|p: (Seq<char>, Seq<char>)| p.0);
        assert(self@.take(self@.len() as int) =~= self@);
        assert(views(raw@).no_duplicates()) by {
            assert forall|a: int, b: int| 0 <= a < views(raw@).len() && 0 <= b < views(raw@).len() && a != b implies views(raw@)[a]
                != views(raw@)[b] by {
                if a < b {
                    assert(ids_unique(self@));
                    assert(self@[a].0 != self@[b].0);
                } else {
                    assert(self@[b].0 != self@[a].0);
                }
            }
        }
        assert(views(raw@).to_set() =~= id_set(self@)) by {
            assert forall|x: Seq<char>| views(raw@).to_set().contains(x) <==> id_set(self@).contains(x) by {
                if views(raw@).contains(x) {
                    let k = choose|k: int| 0 <= k < views(raw@).len() && views(raw@)[k] == x;
                    assert(self@[k].0 == x);
                }
                if has_id(self@, x) {
                    let k = choose|k: int| 0 <= k < self@.len() && (#[trigger] self@[k]).0 == x;
                    assert(views(raw@)[k] == x);
                }
            }
        }
        sort_strings(raw)
    }

    /// The name of the pad for `stream_id`, if it is accepted; the ID is matched as given.
    pub fn pad_for_stream_id(&self, stream_id: &str) -> (pad: Option<String>)
        ensures
            match pad {
                Some(name) => exists|i: int|
                    0 <= i < self@.len() && (#[trigger] self@[i]).0 == stream_id@ && self@[i].1
                        == name@,
                None => !has_id(self@, stream_id@),
            },
            routes_well_formed(self@),
    {
        proof {
            use_type_invariant(self);
        }
        let id_chars = chars_of(stream_id);
        match self.position_of(&id_chars) {
            Some(i) => {
                assert(self@[i as int].1 == self.routes@[i as int].pad_name@);
                Some(self.routes[i].pad_name.clone())
            },
            None => None,
        }
    }

    /// Makes `stream_ids` the accepted set: drops the accepted IDs that are not among them, then
    /// accepts each of them in turn. The IDs that stay keep their pads.
    pub fn set_stream_ids(&mut self, stream_ids: Vec<String>)
        ensures
            final(self)@ == routes_after_setting(old(self)@, views(stream_ids@)),
            id_set(final(self)@) == id_set(old(self)@).intersect(views(stream_ids@).to_set()).union(
                requested_ids(views(stream_ids@)),
            ),
            routes_well_formed(final(self)@),
    {
        proof {
            use_type_invariant(&*self);
        }
        let ghost old_ids = id_set(self@);
        let ghost e0 = self@;
        let ghost req = views(stream_ids@);
        let mut kept: Vec<StreamRoute> = Vec::new();
        let mut i: usize = 0;
        while i < self.routes.len()
            invariant
                i <= self.routes.len() == self@.len(),
                self@ == e0,
                req == views(stream_ids@),
                kept@.map_values(|r: StreamRoute| (r.stream_id@, r.pad_name@)) == kept_routes(
                    e0.take(i as int),
                    req,
                ),
            decreases self.routes.len() - i,
        {
            let id_chars = chars_of(self.routes[i].stream_id.as_str());
            assert(e0[i as int] == (self.routes@[i as int].stream_id@, self.routes@[i as int].pad_name@));
            let ghost before = kept@.map_values(|r: StreamRoute| (r.stream_id@, r.pad_name@));
            proof {
                assert(e0.take(i + 1).drop_last() =~= e0.take(i as int));
                assert(e0.take(i + 1).last() == e0[i as int]);
            }
            if contains_chars(&stream_ids, &id_chars) {
                let route = StreamRoute {
                    stream_id: self.routes[i].stream_id.clone(),
                    pad_name: self.routes[i].pad_name.clone(),
                };
                kept.push(route);
                assert(kept@.map_values(|r: StreamRoute| (r.stream_id@, r.pad_name@)) =~= before.push(
                    e0[i as int],
                ));
            }
            i = i + 1;
        }
        assert(e0.take(e0.len() as int) =~= e0);
        let ghost k0 = kept_routes(e0, req);
        proof {
            lemma_kept_routes(e0, req);
        }
        self.routes = kept;
        let ghost kept_ids = id_set(self@);
        assert(kept_ids =~= old_ids.intersect(req.to_set()));
        let mut j: usize = 0;
        assert(requested_ids(req.take(0)) =~= Set::<Seq<char>>::empty());
        assert(kept_ids =~= kept_ids.union(requested_ids(req.take(0))));
        assert(req.take(0) =~= Seq::<Seq<char>>::empty());
        while j < stream_ids.len()
            invariant
                j <= stream_ids.len(),
                req == views(stream_ids@),
                self@ == with_all_added(k0, req.take(j as int)),
                id_set(self@) == kept_ids.union(requested_ids(req.take(j as int))),
            decreases stream_ids.len() - j,
        {
            let ghost before_e = self@;
            self.add_stream_id(stream_ids[j].as_str());
            proof {
                let x = req[j as int];
                assert(x == stream_ids@[j as int]@);
                if !is_blank(x) {
                    if has_id(before_e, trim(x)) {
                        assert(id_set(before_e).contains(trim(x)));
                        assert(id_set(self@) =~= id_set(before_e).insert(trim(x)));
                    } else {
                        lemma_id_set_push(before_e, (trim(x), next_pad_name(before_e, trim(x))));
                    }
                    assert(id_set(self@) == id_set(before_e).insert(trim(x)));
                }
                let t = req.take(j + 1);
                assert(t =~= req.take(j as int).push(x));
                assert(t.drop_last() =~= req.take(j as int));
                assert(self@ == with_added(before_e, x));
                assert forall|y: Seq<char>| requested_ids(t).contains(y) <==> (requested_ids(
                    req.take(j as int),
                ).contains(y) || (!is_blank(x) && trim(x) == y)) by {
                    if requested_ids(t).contains(y) {
                        let k = choose|k: int|
                            0 <= k < t.len() && !is_blank(#[trigger] t[k]) && trim(t[k]) == y;
                        if k < j {
                            assert(req.take(j as int)[k] == t[k]);
                        }
                    }
                    if requested_ids(req.take(j as int)).contains(y) {
                        let k = choose|k: int|
                            0 <= k < req.take(j as int).len() && !is_blank(
                                #[trigger] req.take(j as int)[k],
                            ) && trim(req.take(j as int)[k]) == y;
                        assert(t[k] == req.take(j as int)[k]);
                    }
                    if !is_blank(x) && trim(x) == y {
                        assert(t[j as int] == x);
                    }
                }
                assert(id_set(self@) =~= kept_ids.union(requested_ids(t)));
            }
            j = j + 1;
        }
        assert(req.take(stream_ids.len() as int) =~= req);
        proof {
            use_type_invariant(&*self);
        }
    }
}

/// Whether some element of `items` holds the characters `s`.
fn contains_chars(items: &Vec<String>, s: &Vec<char>) -> (b: bool)
    ensures
        b == views(items@).contains(s@),
{
    let mut i: usize = 0;
    while i < items.len()
        invariant
            i <= items.len(),
            forall|k: int| 0 <= k < i ==> views(items@)[k] != s@,
        decreases items.len() - i,
    {
        let c = chars_of(items[i].as_str());
        assert(views(items@)[i as int] == c@);
        if crate::text::chars_equal(&c, s) {
            return true;
        }
        i = i + 1;
    }
    false
}

/// The stream IDs of a comma-separated list: each part trimmed, blank parts and repeats left
/// out, first occurrences kept in order.
pub open spec fn collect_stream_ids(parts: Seq<Seq<char>>) -> Seq<Seq<char>>
    decreases parts.len(),
{
    if parts.len() == 0 {
        Seq::empty()
    } else {
        let acc = collect_stream_ids(parts.drop_last());
        let t = trim(parts.last());
        if t.len() > 0 && !acc.contains(t) {
            acc.push(t)
        } else {
            acc
        }
    }
}

proof fn lemma_collected_trimmed(parts: Seq<Seq<char>>)
    ensures
        forall|k: int|
            0 <= k < collect_stream_ids(parts).len() ==> {
                let c = #[trigger] collect_stream_ids(parts)[k];
                &&& c.len() > 0
                &&& trim(c) == c
            },
    decreases parts.len(),
{
    if parts.len() > 0 {
        lemma_collected_trimmed(parts.drop_last());
        lemma_trim_idempotent(parts.last());
        let acc = collect_stream_ids(parts.drop_last());
        let c = collect_stream_ids(parts);
        assert forall|k: int| 0 <= k < c.len() implies (#[trigger] c[k]).len() > 0 && trim(c[k])
            == c[k] by {
            if k < acc.len() {
                assert(c[k] == acc[k]);
            }
        }
    }
}

/// The IDs that a collected list requests are the IDs of the list.
proof fn lemma_requested_collected(parts: Seq<Seq<char>>)
    ensures
        requested_ids(collect_stream_ids(parts)) == collect_stream_ids(parts).to_set(),
{
    let c = collect_stream_ids(parts);
    lemma_collected_trimmed(parts);
    assert forall|x: Seq<char>| requested_ids(c).contains(x) <==> c.to_set().contains(x) by {
        if requested_ids(c).contains(x) {
            let k = choose|k: int| 0 <= k < c.len() && !is_blank(#[trigger] c[k]) && trim(c[k]) == x;
            assert(c[k] == x);
        }
        if c.contains(x) {
            let k = choose|k: int| 0 <= k < c.len() && c[k] == x;
            assert(trim(c[k]) == c[k]);
            assert(!is_blank(c[k]));
        }
    }
    assert(requested_ids(c) =~= c.to_set());
}

/// The stream IDs of the comma-separated `value` of the `stream-ids` property.
pub fn parse_stream_ids(value: &str) -> (ids: Vec<String>)
    ensures
        views(ids@) == collect_stream_ids(split_on(value@, ',')),
{
    let chars = chars_of(value);
    let parts = split_chars(&chars, ',');
    let ghost pv = views(parts@);
    let mut ids: Vec<String> = Vec::new();
    let mut i: usize = 0;
    while i < parts.len()
        invariant
            i <= parts.len(),
            pv == views(parts@),
            views(ids@) == collect_stream_ids(pv.take(i as int)),
        decreases parts.len() - i,
    {
        let t = trim_str(parts[i].as_str());
        let tc = chars_of(t.as_str());
        proof {
            assert(pv.take(i + 1).drop_last() =~= pv.take(i as int));
            assert(pv.take(i + 1).last() == parts@[i as int]@);
        }
        if tc.len() > 0 && !contains_chars(&ids, &tc) {
            let ghost before = views(ids@);
            ids.push(t);
            assert(views(ids@) =~= before.push(tc@));
        }
        i = i + 1;
    }
    assert(pv.take(parts.len() as int) =~= pv);
    ids
}

/// The accepted stream IDs joined with commas, as the `stream-ids` property reads.
pub fn join_stream_ids(stream_ids: &[String]) -> (joined: String)
    ensures
        joined@ == join_with(views(stream_ids@), ','),
{
    join_strings(stream_ids, ',')
}

/// Parsing the comma-joined list of stream IDs gives back the list, for IDs that are trimmed,
/// not empty, distinct and free of commas.
pub proof fn lemma_parse_join_stream_ids(ids: Seq<Seq<char>>)
    requires
        forall|i: int| 0 <= i < ids.len() ==> trim(#[trigger] ids[i]) == ids[i] && ids[i].len() > 0
            && !ids[i].contains(','),
        ids.no_duplicates(),
    ensures
        collect_stream_ids(split_on(join_with(ids, ','), ',')) == ids,
{
    if ids.len() == 0 {
        assert(split_on(Seq::<char>::empty(), ',') =~= seq![Seq::<char>::empty()]);
        assert(seq![Seq::<char>::empty()].drop_last() =~= Seq::<Seq<char>>::empty());
        assert(trim(Seq::<char>::empty()) =~= Seq::<char>::empty());
        assert(ids =~= Seq::<Seq<char>>::empty());
        let parts = seq![Seq::<char>::empty()];
        assert(collect_stream_ids(parts.drop_last()) =~= Seq::<Seq<char>>::empty());
        assert(collect_stream_ids(parts) =~= Seq::<Seq<char>>::empty());
    } else {
        lemma_split_join(ids, ',');
        lemma_collect_identity(ids);
    }
}

proof fn lemma_collect_identity(ids: Seq<Seq<char>>)
    requires
        forall|i: int| 0 <= i < ids.len() ==> trim(#[trigger] ids[i]) == ids[i] && ids[i].len() > 0,
        ids.no_duplicates(),
    ensures
        collect_stream_ids(ids) == ids,
    decreases ids.len(),
{
    if ids.len() > 0 {
        let init = ids.drop_last();
        assert forall|i: int| 0 <= i < init.len() implies trim(#[trigger] init[i]) == init[i]
            && init[i].len() > 0 by {
            assert(init[i] == ids[i]);
        }
        lemma_collect_identity(init);
        assert(trim(ids.last()) == ids.last());
        assert(!init.contains(ids.last())) by {
            if init.contains(ids.last()) {
                let k = choose|k: int| 0 <= k < init.len() && init[k] == ids.last();
                assert(ids[k] == ids[ids.len() - 1]);
            }
        }
        assert(init.push(ids.last()) =~= ids);
    }
}

impl StreamRoutes {
    /// The `stream-ids` property: the accepted stream IDs in increasing order, joined with
    /// commas.
    pub fn stream_ids_text(&self) -> (text: String)
        ensures
            exists|ids: Seq<Seq<char>>|
                strictly_sorted(ids) && ids.to_set() == id_set(self@) && text@ == join_with(
                    ids,
                    ',',
                ),
    {
        let ids = self.stream_ids();
        join_stream_ids(ids.as_slice())
    }

    /// Sets the `stream-ids` property: makes the IDs of the comma-separated `value` the accepted
    /// set. The IDs that stay keep their pads; new ones get pads in the order they are listed.
    pub fn set_stream_ids_text(&mut self, value: &str)
        ensures
            final(self)@ == routes_after_setting(old(self)@, collect_stream_ids(split_on(value@, ','))),
            id_set(final(self)@) == collect_stream_ids(split_on(value@, ',')).to_set(),
            routes_well_formed(final(self)@),
    {
        let ids = parse_stream_ids(value);
        proof {
            lemma_requested_collected(split_on(value@, ','));
        }
        self.set_stream_ids(ids);
        proof {
            let c = collect_stream_ids(split_on(value@, ','));
            assert(id_set(self@) =~= c.to_set());
        }
    }
}

/// Writing the `stream-ids` property back as it reads keeps the accepted stream IDs, as long as
/// no accepted stream ID holds a comma.
pub proof fn lemma_stream_ids_write_back(e: RouteEntries, ids: Seq<Seq<char>>)
    requires
        ids_trimmed(e),
        forall|i: int| 0 <= i < e.len() ==> !(#[trigger] e[i]).0.contains(','),
        strictly_sorted(ids),
        ids.to_set() == id_set(e),
    ensures
        collect_stream_ids(split_on(join_with(ids, ','), ',')).to_set() == id_set(e),
{
    assert forall|k: int| 0 <= k < ids.len() implies trim(#[trigger] ids[k]) == ids[k]
        && ids[k].len() > 0 && !ids[k].contains(',') by {
        assert(ids.to_set().contains(ids[k]));
        assert(has_id(e, ids[k]));
        let j = choose|j: int| 0 <= j < e.len() && (#[trigger] e[j]).0 == ids[k];
        assert(trim(e[j].0) == e[j].0);
    }
    assert(ids.no_duplicates()) by {
        assert forall|a: int, b: int| 0 <= a < ids.len() && 0 <= b < ids.len() && a != b implies ids[a]
            != ids[b] by {
            if a < b {
                assert(chars_lt(ids[a], ids[b]));
                if ids[a] == ids[b] {
                    crate::text::lemma_chars_lt_irreflexive(ids[a]);
                }
            } else {
                assert(chars_lt(ids[b], ids[a]));
                if ids[a] == ids[b] {
                    crate::text::lemma_chars_lt_irreflexive(ids[a]);
                }
            }
        }
    }
    lemma_parse_join_stream_ids(ids);
}

/// `stream_id` with each character that cannot stand in a pad name replaced by `_`.
pub fn sanitize_pad_name(stream_id: &str) -> (name: String)
    ensures
        name@ == sanitized(stream_id@),
{
    let chars = chars_of(stream_id);
    let base = pad_base_chars(&chars);
    assert(base@.skip(4) =~= sanitized(stream_id@));
    string_of_range(&base, 4, base.len())
}

/// `src_` followed by the sanitized stream ID.
fn pad_base_chars(stream_id: &Vec<char>) -> (out: Vec<char>)
    ensures
        out@ == pad_base(stream_id@),
{
    let mut out: Vec<char> = Vec::new();
    out.push('s');
    out.push('r');
    out.push('c');
    out.push('_');
    let mut i: usize = 0;
    while i < stream_id.len()
        invariant
            i <= stream_id.len(),
            out@ == seq!['s', 'r', 'c', '_'] + sanitized(stream_id@.take(i as int)),
        decreases stream_id.len() - i,
    {
        let c = stream_id[i];
        let keep = ('a' <= c && c <= 'z') || ('A' <= c && c <= 'Z') || ('0' <= c && c <= '9') || c
            == '-' || c == '_';
        if keep {
            out.push(c);
        } else {
            out.push('_');
        }
        i = i + 1;
        assert(sanitized(stream_id@.take(i as int)) =~= sanitized(stream_id@.take(i - 1)).push(
            if pad_name_char(c) { c } else { '_' },
        ));
    }
    assert(stream_id@.take(stream_id.len() as int) =~= stream_id@);
    out
}

/// `<base>_<index>`.
fn numbered_chars(base: &Vec<char>, index: u128) -> (out: Vec<char>)
    ensures
        out@ == numbered(base@, index as nat),
{
    let mut out = base.clone();
    out.push('_');
    let digits = decimal_chars(index);
    let mut i: usize = 0;
    while i < digits.len()
        invariant
            i <= digits.len(),
            out@ == base@ + seq!['_'] + digits@.take(i as int),
        decreases digits.len() - i,
    {
        out.push(digits[i]);
        i = i + 1;
        assert(digits@.take(i as int) =~= digits@.take(i - 1).push(digits@[i - 1]));
    }
    assert(digits@.take(digits.len() as int) =~= digits@);
    assert(out@ =~= numbered(base@, index as nat));
    out
}

} // verus!
