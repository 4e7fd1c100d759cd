//! The solve history: what is recorded of a solve, and which tags it shows to be weak.

use vstd::prelude::*;

use crate::number;
use crate::number::parse_i64;
use crate::ordering;
use crate::problem::{Problem, ProblemView};
use crate::text;
use crate::text::{comes_before, join_texts, split_text, trim_text};

verus! {

/// How many weak tags are named.
pub const WEAK_TAG_COUNT: usize = 5;

/// How far back recent solves reach, in seconds.
pub const WINDOW_SECS: i64 = 2592000;

/// A row of the solve history.
#[derive(Debug)]
pub struct SolveRow {
    pub contest_id: i64,
    pub problem_index: String,
    pub name: String,
    pub rating: Option<i32>,
    pub tags: String,
    pub timestamp: i64,
    pub verdict: String,
}

#[verifier::ext_equal]
pub struct SolveRowView {
    pub contest_id: int,
    pub problem_index: Seq<char>,
    pub name: Seq<char>,
    pub rating: Option<i32>,
    pub tags: Seq<char>,
    pub timestamp: i64,
    pub verdict: Seq<char>,
}

impl View for SolveRow {
    type V = SolveRowView;

    open spec fn view(&self) -> SolveRowView {
        SolveRowView {
            contest_id: self.contest_id as int,
            problem_index: self.problem_index@,
            name: self.name@,
            rating: self.rating,
            tags: self.tags@,
            timestamp: self.timestamp,
            verdict: self.verdict@,
        }
    }
}

/// The row for a solve of `p` at `now`, in seconds since the epoch. A contest that is no number
/// counts as 0, and a missing name as empty.
pub open spec fn solve_row_of(p: ProblemView, now: u64) -> SolveRowView {
    SolveRowView {
        contest_id: match number::parsed_i64(p.contest_id) {
            Some(n) => n,
            None => 0,
        },
        problem_index: p.index,
        name: match p.name {
            Some(name) => name,
            None => Seq::empty(),
        },
        rating: p.rating,
        tags: text::join(p.tags, ","@),
        timestamp: now as i64,
        verdict: "PASS"@,
    }
}

/// The row to record for a solve of `problem` at `now`, in seconds since the epoch.
pub fn solve_row(problem: &Problem, now: u64) -> (r: SolveRow)
    ensures
        r@ == solve_row_of(problem@, now),
{
    let contest_id: i64 = match parse_i64(problem.contest_id.as_str()) {
        Some(n) => n,
        None => 0,
    };
    let name = match &problem.name {
        Some(name) => name.clone(),
        None => String::new(),
    };
    SolveRow {
        contest_id,
        problem_index: problem.index.clone(),
        name,
        rating: problem.rating,
        tags: join_texts(&problem.tags, ","),
        timestamp: now as i64,
        verdict: "PASS".to_string(),
    }
}

/// The time from which on solves are recent, as a timestamp.
pub fn recent_since(now: u64) -> (r: i64)
    requires
        now as i64 >= i64::MIN + WINDOW_SECS,
    ensures
        r == (now as i64) - WINDOW_SECS,
{
    (now as i64) - WINDOW_SECS
}

/// The pieces of `list` that are not empty, trimmed.
pub open spec fn cleaned(list: Seq<Seq<char>>) -> Seq<Seq<char>>
    decreases list.len(),
{
    if list.len() == 0 {
        Seq::empty()
    } else {
        let front = cleaned(list.drop_last());
        if list.last().len() == 0 {
            front
        } else {
            front.push(text::trim(list.last()))
        }
    }
}

/// The tags of one row of the history.
pub open spec fn row_tags(row: Seq<char>) -> Seq<Seq<char>> {
    cleaned(text::pieces(row, ','))
}

/// The tags of all rows, one after the other.
pub open spec fn all_tags(rows: Seq<Seq<char>>) -> Seq<Seq<char>>
    decreases rows.len(),
{
    if rows.len() == 0 {
        Seq::empty()
    } else {
        all_tags(rows.drop_last()) + row_tags(rows.last())
    }
}

/// How often `tag` occurs.
pub open spec fn tag_count(tags: Seq<Seq<char>>, tag: Seq<char>) -> nat
    decreases tags.len(),
{
    if tags.len() == 0 {
        0
    } else {
        tag_count(tags.drop_last(), tag) + if tags.last() == tag {
            1nat
        } else {
            0nat
        }
    }
}

/// Each tag once, in the order of first occurrence.
pub open spec fn distinct(tags: Seq<Seq<char>>) -> Seq<Seq<char>>
    decreases tags.len(),
{
    if tags.len() == 0 {
        Seq::empty()
    } else {
        let front = distinct(tags.drop_last());
        if front.contains(tags.last()) {
            front
        } else {
            front.push(tags.last())
        }
    }
}

/// Whether tag `a` is weaker than tag `b`: it occurs less often, or as often and comes first
/// alphabetically.
pub open spec fn is_weaker(tags: Seq<Seq<char>>, a: Seq<char>, b: Seq<char>) -> bool {
    ||| tag_count(tags, a) < tag_count(tags, b)
    ||| tag_count(tags, a) == tag_count(tags, b) && text::text_before(a, b)
}

/// [`is_weaker`] as an order.
pub open spec fn weakness(tags: Seq<Seq<char>>) -> spec_fn(Seq<char>, Seq<char>) -> bool {
    |a: Seq<char>, b: Seq<char>| is_weaker(tags, a, b)
}

/// The weakest tags, weakest first.
pub open spec fn weakest(tags: Seq<Seq<char>>) -> Seq<Seq<char>> {
    ordering::first_of(
        ordering::stable_sort(distinct(tags), weakness(tags)),
        WEAK_TAG_COUNT as nat,
    )
}

proof fn lemma_code_point(x: char, y: char)
    ensures
        x as u32 == y as u32 ==> x == y,
{
}

proof fn lemma_text_order(a: Seq<char>, b: Seq<char>, c: Seq<char>)
    ensures
        text::text_before(a, b) ==> !text::text_before(b, a),
        text::text_before(a, b) ==> text::text_before(a, c) || text::text_before(c, b),
        a == b || text::text_before(a, b) || text::text_before(b, a),
    decreases a.len() + b.len() + c.len(),
{
    if a.len() > 0 && b.len() > 0 {
        lemma_text_order(
            a.skip(1),
            b.skip(1),
            if c.len() > 0 {
                c.skip(1)
            } else {
                c
            },
        );
        lemma_code_point(a[0], b[0]);
        if c.len() > 0 {
            lemma_code_point(a[0], c[0]);
            lemma_code_point(b[0], c[0]);
        }
        if a[0] == b[0] && a.skip(1) == b.skip(1) {
            assert(a =~= seq![a[0]] + a.skip(1));
            assert(b =~= seq![b[0]] + b.skip(1));
        }
    } else if a.len() == 0 && b.len() == 0 {
        assert(a =~= b);
    }
}

proof fn lemma_weakness_is_order(tags: Seq<Seq<char>>)
    ensures
        ordering::is_order(weakness(tags)),
{
    let before = weakness(tags);
    assert forall|x: Seq<char>, y: Seq<char>| #[trigger] before(x, y) implies !before(y, x) by {
        lemma_text_order(x, y, x);
    }
    assert forall|x: Seq<char>, y: Seq<char>, z: Seq<char>| #[trigger] before(x, y) implies before(
        x,
        z,
    ) || #[trigger] before(z, y) by {
        lemma_text_order(x, y, z);
    }
}

/// Appends the tags of one row.
fn push_row_tags(tags: &mut Vec<String>, row: &str)
    ensures
        text::texts(final(tags)@) == text::texts(old(tags)@) + row_tags(row@),
{
    let parts = split_text(row, ',');
    let ghost all = text::pieces(row@, ',');
    let ghost had = text::texts(tags@);
    let mut i: usize = 0;
    proof {
        assert(all.len() == parts@.len());
        assert(had =~= had + cleaned(all.take(0)));
    }
    while i < parts.len()
        invariant
            i <= parts.len(),
            text::texts(parts@) == all,
            text::texts(tags@) == had + cleaned(all.take(i as int)),
        decreases parts.len() - i,
    {
        let ghost before = text::texts(tags@);
        proof {
            assert(all.take(i + 1).drop_last() =~= all.take(i as int));
            assert(all.take(i + 1).last() == parts@[i as int]@);
        }
        if !parts[i].as_str().is_empty() {
            let tag = trim_text(parts[i].as_str());
            let ghost t = tag@;
            tags.push(tag);
            proof {
                assert(text::texts(tags@) =~= before.push(t));
                assert(text::texts(tags@) =~= had + cleaned(all.take(i + 1)));
            }
        }
        i += 1;
    }
    proof {
        assert(all.take(parts.len() as int) =~= all);
    }
}

/// The tags of all rows.
fn collect_tags(rows: &Vec<String>) -> (r: Vec<String>)
    ensures
        text::texts(r@) == all_tags(text::texts(rows@)),
{
    let ghost all = text::texts(rows@);
    let mut r: Vec<String> = Vec::new();
    let mut i: usize = 0;
    proof {
        assert(text::texts(r@) =~= all_tags(all.take(0)));
    }
    while i < rows.len()
        invariant
            i <= rows.len(),
            all == text::texts(rows@),
            text::texts(r@) == all_tags(all.take(i as int)),
        decreases rows.len() - i,
    {
        proof {
            assert(all.take(i + 1).drop_last() =~= all.take(i as int));
            assert(all.take(i + 1).last() == rows@[i as int]@);
        }
        push_row_tags(&mut r, rows[i].as_str());
        i += 1;
    }
    proof {
        assert(all.take(rows.len() as int) =~= all);
    }
    r
}

/// A tag and how often it occurs.
struct TagCount {
    tag: String,
    count: usize,
}

spec fn tag_texts(list: Seq<TagCount>) -> Seq<Seq<char>> {
    Seq::new(list.len(), |i: int| list[i].tag@)
}

spec fn counts_agree(list: Seq<TagCount>, tags: Seq<Seq<char>>) -> bool {
    forall|i: int|
        0 <= i < list.len() ==> (#[trigger] list[i]).count == tag_count(tags, list[i].tag@)
}

proof fn lemma_distinct(tags: Seq<Seq<char>>)
    ensures
        distinct(tags).no_duplicates(),
        forall|t: Seq<char>| #[trigger] distinct(tags).contains(t) == tags.contains(t),
    decreases tags.len(),
{
    if tags.len() > 0 {
        let front = distinct(tags.drop_last());
        lemma_distinct(tags.drop_last());
        let all = distinct(tags);
        assert forall|t: Seq<char>| #[trigger] all.contains(t) == tags.contains(t) by {
            if tags.contains(t) {
                let k = choose|k: int| 0 <= k < tags.len() && tags[k] == t;
                if k < tags.len() - 1 {
                    assert(tags.drop_last()[k] == t);
                    assert(front.contains(t));
                    let m = choose|m: int| 0 <= m < front.len() && front[m] == t;
                    assert(all[m] == t);
                } else if !front.contains(t) {
                    assert(all[all.len() - 1] == t);
                }
            }
            if all.contains(t) {
                let m = choose|m: int| 0 <= m < all.len() && all[m] == t;
                if m < front.len() {
                    assert(front[m] == t);
                    assert(front.contains(t));
                    assert(tags.drop_last().contains(t));
                    let k = choose|k: int| 0 <= k < tags.drop_last().len() && tags.drop_last()[k]
                        == t;
                    assert(tags[k] == t);
                } else {
                    assert(tags[tags.len() - 1] == t);
                }
            }
        }
        assert(all.no_duplicates()) by {
            assert forall|i: int, j: int| 0 <= i < j < all.len() implies all[i] != all[j] by {
                if j == front.len() {
                    assert(all[i] == front[i]);
                    assert(front.contains(front[i]));
                }
            }
        }
    }
}

proof fn lemma_count_bound(tags: Seq<Seq<char>>, t: Seq<char>)
    ensures
        tag_count(tags, t) <= tags.len(),
        !tags.contains(t) ==> tag_count(tags, t) == 0,
        tags.contains(t) ==> tag_count(tags, t) > 0,
    decreases tags.len(),
{
    if tags.len() > 0 {
        let front = tags.drop_last();
        lemma_count_bound(front, t);
        if front.contains(t) {
            let k = choose|k: int| 0 <= k < front.len() && front[k] == t;
            assert(tags[k] == t);
        }
        if tags.last() == t {
            assert(tags[tags.len() - 1] == t);
        }
        if tags.contains(t) && tags.last() != t {
            let k = choose|k: int| 0 <= k < tags.len() && tags[k] == t;
            assert(front[k] == t);
        }
    }
}

/// Counts the tags.
fn count_tags(tags: &Vec<String>) -> (r: Vec<TagCount>)
    ensures
        tag_texts(r@) == distinct(text::texts(tags@)),
        counts_agree(r@, text::texts(tags@)),
{
    let ghost all = text::texts(tags@);
    let mut r: Vec<TagCount> = Vec::new();
    let mut i: usize = 0;
    proof {
        assert(tag_texts(r@) =~= distinct(all.take(0)));
    }
    while i < tags.len()
        invariant
            i <= tags.len(),
            all == text::texts(tags@),
            tag_texts(r@) == distinct(all.take(i as int)),
            counts_agree(r@, all.take(i as int)),
        decreases tags.len() - i,
    {
        let ghost before = all.take(i as int);
        let ghost after = all.take(i + 1);
        let ghost t = tags@[i as int]@;
        let ghost had = r@;
        proof {
            assert(after.drop_last() =~= before);
            assert(after.last() == t);
            lemma_count_bound(before, t);
            lemma_distinct(before);
        }
        let mut k: usize = 0;
        while k < r.len() && r[k].tag != tags[i]
            invariant
                k <= r.len(),
                i < tags.len(),
                r@ == had,
                t == tags@[i as int]@,
                forall|m: int| 0 <= m < k ==> (#[trigger] had[m]).tag@ != t,
            decreases r.len() - k,
        {
            k += 1;
        }
        if k < r.len() {
            proof {
                assert(tag_texts(had)[k as int] == t);
                assert(had[k as int].count == tag_count(before, t));
            }
            let count: usize = r[k].count + 1;
            r.set(k, TagCount { tag: tags[i].clone(), count });
            proof {
                assert(tag_texts(r@) =~= tag_texts(had));
                assert forall|m: int| 0 <= m < r@.len() implies (#[trigger] r@[m]).count
                    == tag_count(after, r@[m].tag@) by {
                    if m != k {
                        assert(r@[m] == had[m]);
                        assert(tag_texts(had)[m] != tag_texts(had)[k as int]);
                    }
                }
            }
        } else {
            r.push(TagCount { tag: tags[i].clone(), count: 1 });
            proof {
                assert forall|m: int| 0 <= m < had.len() implies #[trigger] tag_texts(had)[m]
                    != t by {
                    assert(had[m].tag@ != t);
                }
                assert(!distinct(before).contains(t));
                assert(tag_texts(r@) =~= distinct(after));
                assert forall|m: int| 0 <= m < r@.len() implies (#[trigger] r@[m]).count
                    == tag_count(after, r@[m].tag@) by {
                    if m < had.len() {
                        assert(r@[m] == had[m]);
                    }
                }
            }
        }
        i += 1;
    }
    proof {
        assert(all.take(tags.len() as int) =~= all);
    }
    r
}

/// Puts a tag into a list sorted by weakness and keeps the weakest.
fn insert_weak(best: &mut Vec<TagCount>, x: TagCount, Ghost(tags): Ghost<Seq<Seq<char>>>)
    requires
        counts_agree(old(best)@, tags),
        x.count == tag_count(tags, x.tag@),
    ensures
        counts_agree(final(best)@, tags),
        tag_texts(final(best)@) == ordering::first_of(
            ordering::insert_stable(tag_texts(old(best)@), x.tag@, weakness(tags)),
            WEAK_TAG_COUNT as nat,
        ),
{
    let ghost order = weakness(tags);
    let ghost had = best@;
    let ghost all = tag_texts(had);
    let ghost xt = x.tag@;
    let mut p: usize = best.len();
    proof {
        assert(all.take(p as int) =~= all);
    }
    while p > 0 && (x.count < best[p - 1].count || (x.count == best[p - 1].count && comes_before(
        x.tag.as_str(),
        best[p - 1].tag.as_str(),
    )))
        invariant
            p <= best.len(),
            best@ == had,
            all == tag_texts(had),
            xt == x.tag@,
            order == weakness(tags),
            counts_agree(had, tags),
            x.count == tag_count(tags, xt),
            ordering::insert_position(all, xt, order) == ordering::insert_position(
                all.take(p as int),
                xt,
                order,
            ),
        decreases p,
    {
        proof {
            assert(all.take(p as int).last() == had[p - 1].tag@);
            assert(order(xt, all.take(p as int).last()));
            assert(all.take(p as int).drop_last() =~= all.take(p - 1));
        }
        p -= 1;
    }
    proof {
        if p > 0 {
            assert(all.take(p as int).last() == had[p - 1].tag@);
            assert(had[p - 1].count == tag_count(tags, had[p - 1].tag@));
            assert(!order(xt, all.take(p as int).last()));
        }
        assert(ordering::insert_position(all, xt, order) == p);
        ordering::lemma_insert_position(all, xt, order);
    }
    best.insert(p, x);
    let ghost grown = best@;
    proof {
        assert(tag_texts(grown) =~= all.insert(p as int, xt));
        assert forall|i: int| 0 <= i < grown.len() implies (#[trigger] grown[i]).count == tag_count(
            tags,
            grown[i].tag@,
        ) by {
            if i < p {
                assert(grown[i] == had[i]);
            } else if i > p {
                assert(grown[i] == had[i - 1]);
            }
        }
    }
    if best.len() > WEAK_TAG_COUNT {
        best.truncate(WEAK_TAG_COUNT);
        proof {
            assert(best@ =~= grown.take(WEAK_TAG_COUNT as int));
            assert(tag_texts(best@) =~= tag_texts(grown).take(WEAK_TAG_COUNT as int));
            assert forall|i: int| 0 <= i < best@.len() implies #[trigger] best@[i] == grown[i] by {}
        }
    }
}

/// The weakest of the tags.
fn weakest_of(tags: &Vec<String>) -> (r: Vec<String>)
    ensures
        text::texts(r@) == weakest(text::texts(tags@)),
{
    let ghost all = text::texts(tags@);
    let ghost order = weakness(all);
    let mut left = count_tags(tags);
    let ghost each = left@;
    let ghost names = tag_texts(each);
    let mut best: Vec<TagCount> = Vec::new();
    let n: usize = left.len();
    let mut i: usize = 0;
    proof {
        lemma_weakness_is_order(all);
        assert(tag_texts(best@) =~= names.take(0));
    }
    while i < n
        invariant
            i <= n,
            n == left.len(),
            left@ == each,
            counts_agree(each, all),
            names == tag_texts(each),
            order == weakness(all),
            ordering::is_order(order),
            counts_agree(best@, all),
            tag_texts(best@) == ordering::first_of(
                ordering::stable_sort(names.take(i as int), order),
                WEAK_TAG_COUNT as nat,
            ),
        decreases n - i,
    {
        let x = TagCount { tag: left[i].tag.clone(), count: left[i].count };
        proof {
            let so_far = names.take(i as int);
            assert(names.take(i + 1).drop_last() =~= so_far);
            assert(names.take(i + 1).last() == x.tag@);
            ordering::lemma_stable_sort_sorts(so_far, order);
            ordering::lemma_insert_first(
                ordering::stable_sort(so_far, order),
                x.tag@,
                order,
                WEAK_TAG_COUNT as nat,
            );
        }
        insert_weak(&mut best, x, Ghost(all));
        i += 1;
    }
    proof {
        assert(names.take(n as int) =~= names);
    }
    let mut r: Vec<String> = Vec::new();
    let mut k: usize = 0;
    while k < best.len()
        invariant
            k <= best.len(),
            r@.len() == k,
            forall|m: int| 0 <= m < k ==> (#[trigger] r@[m])@ == best@[m].tag@,
        decreases best.len() - k,
    {
        r.push(best[k].tag.clone());
        k += 1;
    }
    proof {
        assert(text::texts(r@) =~= tag_texts(best@));
    }
    r
}

/// The weakest tags of the solves whose tag columns are `rows`.
pub fn weak_tags(rows: &Vec<String>) -> (r: Vec<String>)
    ensures
        text::texts(r@) == weakest(all_tags(text::texts(rows@))),
{
    let tags = collect_tags(rows);
    weakest_of(&tags)
}

/// The weakest tags of the recent solves, or `None` where these have no tag at all: then the
/// whole history decides.
pub fn recent_weak_tags(rows: &Vec<String>) -> (r: Option<Vec<String>>)
    ensures
        match r {
            Some(weak) => all_tags(text::texts(rows@)).len() > 0 && text::texts(weak@) == weakest(
                all_tags(text::texts(rows@)),
            ),
            None => all_tags(text::texts(rows@)).len() == 0,
        },
{
    let tags = collect_tags(rows);
    proof {
        assert(text::texts(tags@).len() == tags@.len());
    }
    if tags.len() == 0 {
        None
    } else {
        Some(weakest_of(&tags))
    }
}

/// Whether `tag` survives being stored: it is not empty, holds no comma, and neither begins nor
/// ends in white space.
pub open spec fn is_clean_tag(tag: Seq<char>) -> bool {
    tag.len() > 0 && !tag.contains(',') && text::trim(tag) == tag
}

/// Reading back the tags of a recorded solve gives the tags of the problem.
pub proof fn lemma_recorded_tags_are_read_back(p: ProblemView, now: u64)
    requires
        forall|i: int| 0 <= i < p.tags.len() ==> is_clean_tag(#[trigger] p.tags[i]),
    ensures
        row_tags(solve_row_of(p, now).tags) == p.tags,
{
    lemma_joined_tags(p.tags);
}

proof fn lemma_joined_tags(tags: Seq<Seq<char>>)
    requires
        forall|i: int| 0 <= i < tags.len() ==> is_clean_tag(#[trigger] tags[i]),
    ensures
        row_tags(text::join(tags, ","@)) == tags,
        tags.len() > 0 ==> text::pieces(text::join(tags, ","@), ',') == tags,
    decreases tags.len(),
{
    reveal_strlit(",");
    let all = text::join(tags, ","@);
    if tags.len() == 0 {
        let none = text::pieces(all, ',');
        assert(none =~= seq![Seq::<char>::empty()]);
        assert(none.last().len() == 0);
        assert(none.drop_last() =~= Seq::<Seq<char>>::empty());
        assert(cleaned(none.drop_last()) =~= Seq::<Seq<char>>::empty());
        assert(row_tags(all) =~= tags);
    } else {
        let front = tags.drop_last();
        assert forall|i: int| 0 <= i < front.len() implies is_clean_tag(#[trigger] front[i]) by {
            assert(front[i] == tags[i]);
        }
        assert(is_clean_tag(tags[tags.len() - 1]));
        lemma_joined_tags(front);
        let nothing = Seq::<char>::empty();
        if tags.len() == 1 {
            text::lemma_pieces_extend(nothing, tags[0], ',');
            assert(nothing + tags[0] =~= tags[0]);
            assert(text::pieces(all, ',') =~= tags);
        } else {
            let body = text::join(front, ","@);
            assert(all =~= body.push(',') + tags.last());
            text::lemma_pieces_concat(body, tags.last(), ',');
            text::lemma_pieces_extend(nothing, tags.last(), ',');
            assert(nothing + tags.last() =~= tags.last());
            assert(text::pieces(tags.last(), ',') =~= seq![tags.last()]);
            assert(text::pieces(all, ',') =~= tags);
        }
        assert(cleaned(front) == front) by {
            if front.len() > 0 {
                assert(cleaned(front) == row_tags(text::join(front, ","@)));
            }
        }
        assert(cleaned(tags) =~= tags);
    }
}

/// The weak tags are the tags that occur least often: they come in order, none twice, each
/// occurs; and a tag that is not among them is left out only because five weaker ones were
/// found.
pub proof fn lemma_weakest_are_weakest(tags: Seq<Seq<char>>)
    ensures
        weakest(tags).len() <= WEAK_TAG_COUNT,
        forall|j: int, k: int|
            0 <= j < k < weakest(tags).len() ==> is_weaker(
                tags,
                #[trigger] weakest(tags)[j],
                #[trigger] weakest(tags)[k],
            ),
        forall|k: int| 0 <= k < weakest(tags).len() ==> tags.contains(#[trigger] weakest(tags)[k]),
        forall|t: Seq<char>|
            #[trigger] tags.contains(t) && !weakest(tags).contains(t) ==> {
                &&& weakest(tags).len() == WEAK_TAG_COUNT
                &&& forall|k: int|
                    0 <= k < WEAK_TAG_COUNT ==> is_weaker(tags, #[trigger] weakest(tags)[k], t)
            },
{
    let order = weakness(tags);
    let names = distinct(tags);
    let sorted = ordering::stable_sort(names, order);
    let chosen = weakest(tags);
    lemma_weakness_is_order(tags);
    lemma_distinct(tags);
    ordering::lemma_stable_sort_sorts(names, order);
    assert(sorted.no_duplicates()) by {
        broadcast use vstd::seq_lib::group_to_multiset_ensures;

        names.lemma_multiset_has_no_duplicates();
        sorted.lemma_multiset_has_no_duplicates_conv();
    }
    assert forall|i: int, j: int| 0 <= i < j < sorted.len() implies is_weaker(
        tags,
        #[trigger] sorted[i],
        #[trigger] sorted[j],
    ) by {
        assert(!order(sorted[j], sorted[i]));
        lemma_text_order(sorted[i], sorted[j], sorted[i]);
    }
    assert forall|k: int| 0 <= k < chosen.len() implies tags.contains(#[trigger] chosen[k]) by {
        assert(chosen[k] == sorted[k]);
        assert(sorted.contains(sorted[k]));
        ordering::lemma_same_elements(sorted, names, sorted[k]);
        assert(names.contains(sorted[k]));
    }
    assert forall|j: int, k: int| 0 <= j < k < chosen.len() implies is_weaker(
        tags,
        #[trigger] chosen[j],
        #[trigger] chosen[k],
    ) by {
        assert(chosen[j] == sorted[j] && chosen[k] == sorted[k]);
    }
    assert forall|t: Seq<char>| #[trigger] tags.contains(t) && !chosen.contains(t) implies {
        &&& chosen.len() == WEAK_TAG_COUNT
        &&& forall|k: int| 0 <= k < WEAK_TAG_COUNT ==> is_weaker(tags, #[trigger] chosen[k], t)
    } by {
        assert(names.contains(t));
        ordering::lemma_same_elements(sorted, names, t);
        let m = choose|m: int| 0 <= m < sorted.len() && sorted[m] == t;
        if m < chosen.len() {
            assert(chosen[m] == t);
        }
        assert forall|k: int| 0 <= k < WEAK_TAG_COUNT implies is_weaker(
            tags,
            #[trigger] chosen[k],
            t,
        ) by {
            assert(chosen[k] == sorted[k]);
            assert(is_weaker(tags, sorted[k], sorted[m]));
        }
    }
}

} // verus!
