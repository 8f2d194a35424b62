use vstd::prelude::*;

use crate::models::tag::{law_zone_names_distinct, zone_name, CourtZone, Possession, ShotResult, Tag};

verus! {

/// How the tagged shots ended.
#[derive(Debug, Clone, Copy, PartialEq, Eq, Default)]
pub struct ShotResultStats {
    pub made: usize,
    pub missed: usize,
    pub blocked: usize,
    pub fouled: usize,
}

impl ShotResultStats {
    /// The shots that count as field-goal attempts: made, missed and
    /// blocked ones (a fouled shot is not an attempt).
    pub fn field_goal_attempts(&self) -> (n: usize)
        requires
            self.made + self.missed + self.blocked <= usize::MAX,
        ensures
            n == self.made + self.missed + self.blocked,
    {
        self.made + self.missed + self.blocked
    }

    /// Number of shots of every outcome.
    pub fn total(&self) -> (n: usize)
        requires
            self.made + self.missed + self.blocked + self.fouled <= usize::MAX,
        ensures
            n == self.made + self.missed + self.blocked + self.fouled,
    {
        self.made + self.missed + self.blocked + self.fouled
    }
}

/// A per-tag quantity that statistics add up over a list of tags.
pub enum Measure {
    /// 1 for a tag whose category label is the given text.
    InCategory(Seq<char>),
    /// 1 for a tag recorded in the given quarter.
    InQuarter(u8),
    /// 1 for a tag with a quarter.
    WithQuarter,
    /// 1 for a tag in the court zone with the given name.
    InZone(Seq<char>),
    /// 1 for a tag with a court zone.
    WithZone,
    /// 1 for a tag in the given court zone.
    AtZone(CourtZone),
    /// 1 for a tag with the given possession.
    WithPossession(Possession),
    /// 1 for a tag with a possession.
    AnyPossession,
    /// 1 for a tag with the given shot result.
    WithShot(ShotResult),
    /// 1 for a tag with a shot result.
    AnyShot,
    /// How often the given player id is listed on the tag.
    Involving(Seq<char>),
    /// How many player ids are listed on the tag.
    PlayerRefs,
}

/// How often `id` occurs in `ids`.
pub open spec fn occurrences(ids: Seq<String>, id: Seq<char>) -> nat
    decreases ids.len(),
{
    if ids.len() == 0 {
        0
    } else {
        occurrences(ids.drop_last(), id) + if ids.last()@ == id { 1nat } else { 0nat }
    }
}

/// The value of `measure` on one tag.
pub open spec fn weight(tag: Tag, measure: Measure) -> nat {
    match measure {
        Measure::InCategory(label) => if tag.category@.label() == label { 1 } else { 0 },
        Measure::InQuarter(q) => if tag.quarter == Some(q) { 1 } else { 0 },
        Measure::WithQuarter => if tag.quarter is Some { 1 } else { 0 },
        Measure::InZone(name) => if tag.court_zone matches Some(z) && zone_name(z) == name { 1 } else { 0 },
        Measure::WithZone => if tag.court_zone is Some { 1 } else { 0 },
        Measure::AtZone(zone) => if tag.court_zone == Some(zone) { 1 } else { 0 },
        Measure::WithPossession(p) => if tag.possession == Some(p) { 1 } else { 0 },
        Measure::AnyPossession => if tag.possession is Some { 1 } else { 0 },
        Measure::WithShot(r) => if tag.shot_result == Some(r) { 1 } else { 0 },
        Measure::AnyShot => if tag.shot_result is Some { 1 } else { 0 },
        Measure::Involving(id) => occurrences(tag.player_ids@, id),
        Measure::PlayerRefs => tag.player_ids@.len(),
    }
}

/// The sum of `measure` over `tags`.
pub open spec fn tally(tags: Seq<Tag>, measure: Measure) -> nat
    decreases tags.len(),
{
    if tags.len() == 0 {
        0
    } else {
        tally(tags.drop_last(), measure) + weight(tags.last(), measure)
    }
}

/// Is `measure` 0 or 1 on every tag?
pub open spec fn is_indicator(measure: Measure) -> bool {
    !(measure is Involving) && !(measure is PlayerRefs)
}

proof fn lemma_tally_step(tags: Seq<Tag>, i: int, measure: Measure)
    requires
        0 <= i < tags.len(),
    ensures
        tally(tags.take(i + 1), measure) == tally(tags.take(i), measure) + weight(tags[i], measure),
{
    assert(tags.take(i + 1).drop_last() =~= tags.take(i));
}

proof fn lemma_tally_whole(tags: Seq<Tag>, measure: Measure)
    ensures
        tally(tags.take(tags.len() as int), measure) == tally(tags, measure),
{
    assert(tags.take(tags.len() as int) =~= tags);
}

proof fn lemma_indicator_bound(tags: Seq<Tag>, measure: Measure)
    requires
        is_indicator(measure),
    ensures
        tally(tags, measure) <= tags.len(),
    decreases tags.len(),
{
    if tags.len() > 0 {
        lemma_indicator_bound(tags.drop_last(), measure);
    }
}

/// The category labels along each side of the data matrix.
pub open spec fn matrix_labels() -> Seq<Seq<char>> {
    seq!["Offense"@, "Defense"@, "Transition"@, "Set Play"@, "Foul"@, "Free Throw"@]
}

proof fn lemma_matrix_labels_distinct()
    ensures
        forall|i: int, j: int|
            0 <= i < 6 && 0 <= j < 6 && i != j ==> matrix_labels()[i] != matrix_labels()[j],
{
    reveal_strlit("Offense");
    reveal_strlit("Defense");
    reveal_strlit("Transition");
    reveal_strlit("Set Play");
    reveal_strlit("Foul");
    reveal_strlit("Free Throw");
    let l = matrix_labels();
    assert(l[0].len() == 7 && l[1].len() == 7 && l[2].len() == 10 && l[3].len() == 8);
    assert(l[4].len() == 4 && l[5].len() == 10);
    assert(l[0][0] != l[1][0]);
    assert(l[2][0] != l[5][0]);
}

/// Cross-tabulation of tag categories, as in a Sportscode matrix.
#[derive(Debug, Clone)]
pub struct DataMatrix {
    pub row_labels: Vec<String>,
    pub col_labels: Vec<String>,
    pub cells: Vec<Vec<usize>>,
}

/// The texts of a list of strings.
pub open spec fn texts(strings: Seq<String>) -> Seq<Seq<char>> {
    strings.map_values(|s: String| s@)
}

/// Is `matrix` the category matrix of `tags`: the labels of
/// [`matrix_labels`] along both sides, on the diagonal the number of tags
/// whose category label is the row's label, and zero elsewhere?
pub open spec fn is_matrix_of(matrix: DataMatrix, tags: Seq<Tag>) -> bool {
    &&& texts(matrix.row_labels@) == matrix_labels()
    &&& texts(matrix.col_labels@) == matrix_labels()
    &&& matrix.cells@.len() == 6
    &&& forall|i: int| 0 <= i < 6 ==> (#[trigger] matrix.cells@[i])@.len() == 6
    &&& forall|i: int, j: int|
        0 <= i < 6 && 0 <= j < 6 ==> #[trigger] matrix.cells@[i]@[j] == if i == j {
            tally(tags, Measure::InCategory(matrix_labels()[i]))
        } else {
            0
        }
}

fn matrix_label_strings() -> (labels: Vec<String>)
    ensures
        labels@.len() == 6,
        texts(labels@) == matrix_labels(),
{
    let labels = vec![
        "Offense".to_string(),
        "Defense".to_string(),
        "Transition".to_string(),
        "Set Play".to_string(),
        "Foul".to_string(),
        "Free Throw".to_string(),
    ];
    assert(texts(labels@) =~= matrix_labels());
    labels
}

/// The position of the first string in `strings` whose text is `text`.
fn position_of(strings: &Vec<String>, text: &String) -> (pos: Option<usize>)
    ensures
        match pos {
            Some(k) => k < strings@.len() && strings@[k as int]@ == text@ && forall|j: int|
                0 <= j < k ==> strings@[j]@ != text@,
            None => forall|j: int| 0 <= j < strings@.len() ==> strings@[j]@ != text@,
        },
{
    let mut k: usize = 0;
    while k < strings.len()
        invariant
            k <= strings@.len(),
            forall|j: int| 0 <= j < k ==> strings@[j]@ != text@,
        decreases strings@.len() - k,
    {
        if strings[k].eq(text) {
            return Some(k);
        }
        k += 1;
    }
    None
}

impl DataMatrix {
    /// The category matrix of `tags`: each tag whose category label is one
    /// of the six matrix labels counts on that label's diagonal cell.
    pub fn from_tags(tags: &Vec<Tag>) -> (matrix: DataMatrix)
        ensures
            is_matrix_of(matrix, tags@),
    {
        let categories = matrix_label_strings();
        let n = categories.len();
        let mut diagonal: Vec<usize> = vec![0usize; n];
        proof {
            lemma_matrix_labels_distinct();
        }
        let mut i: usize = 0;
        while i < tags.len()
            invariant
                i <= tags@.len(),
                n == 6,
                categories@.len() == 6,
                texts(categories@) == matrix_labels(),
                diagonal@.len() == 6,
                forall|k: int|
                    0 <= k < 6 ==> #[trigger] diagonal@[k] == tally(
                        tags@.take(i as int),
                        Measure::InCategory(matrix_labels()[k]),
                    ),
                forall|a: int, b: int|
                    0 <= a < 6 && 0 <= b < 6 && a != b ==> matrix_labels()[a] != matrix_labels()[b],
            decreases tags@.len() - i,
        {
            let label = tags[i].category.to_string();
            let found = position_of(&categories, &label);
            proof {
                assert forall|k: int| 0 <= k < 6 implies categories@[k]@ == matrix_labels()[k] by {
                    assert(texts(categories@)[k] == categories@[k]@);
                }
                assert forall|k: int| 0 <= k < 6 implies tally(
                    tags@.take(i + 1),
                    Measure::InCategory(matrix_labels()[k]),
                ) == tally(tags@.take(i as int), Measure::InCategory(matrix_labels()[k])) + weight(
                    tags@[i as int],
                    Measure::InCategory(matrix_labels()[k]),
                ) by {
                    lemma_tally_step(tags@, i as int, Measure::InCategory(matrix_labels()[k]));
                }
            }
            if let Some(k) = found {
                proof {
                    lemma_indicator_bound(tags@.take(i as int), Measure::InCategory(matrix_labels()[k as int]));
                }
                let c = diagonal[k];
                diagonal.set(k, c + 1);
            }
            i += 1;
        }
        proof {
            assert forall|k: int| 0 <= k < 6 implies diagonal@[k] == tally(
                tags@,
                Measure::InCategory(matrix_labels()[k]),
            ) by {
                lemma_tally_whole(tags@, Measure::InCategory(matrix_labels()[k]));
            }
        }
        let mut cells: Vec<Vec<usize>> = Vec::new();
        let mut r: usize = 0;
        while r < n
            invariant
                n == 6,
                r <= 6,
                diagonal@.len() == 6,
                cells@.len() == r,
                forall|a: int| 0 <= a < r ==> (#[trigger] cells@[a])@.len() == 6,
                forall|a: int, b: int|
                    0 <= a < r && 0 <= b < 6 ==> #[trigger] cells@[a]@[b] == if a == b {
                        diagonal@[a] as int
                    } else {
                        0
                    },
            decreases 6 - r,
        {
            let mut row: Vec<usize> = vec![0usize; n];
            row.set(r, diagonal[r]);
            cells.push(row);
            r += 1;
        }
        let row_labels = matrix_label_strings();
        DataMatrix { row_labels, col_labels: categories, cells }
    }
}


/// How many tags carry each category label.
pub open spec fn category_counts(tags: Seq<Tag>) -> spec_fn(Seq<char>) -> nat {
    |k: Seq<char>| tally(tags, Measure::InCategory(k))
}

/// How many tags fall in each quarter.
pub open spec fn quarter_counts(tags: Seq<Tag>) -> spec_fn(u8) -> nat {
    |q: u8| tally(tags, Measure::InQuarter(q))
}

/// How many tags lie in each court zone, by zone name.
pub open spec fn zone_counts(tags: Seq<Tag>) -> spec_fn(Seq<char>) -> nat {
    |k: Seq<char>| tally(tags, Measure::InZone(k))
}

/// How often each player id is listed over all tags.
pub open spec fn involvement_counts(tags: Seq<Tag>) -> spec_fn(Seq<char>) -> nat {
    |k: Seq<char>| tally(tags, Measure::Involving(k))
}

/// Does `entries` list, once each, every text on which `count` is
/// positive, paired with that count?
pub open spec fn is_tally_by_text(entries: Seq<(String, usize)>, count: spec_fn(Seq<char>) -> nat) -> bool {
    &&& forall|i: int, j: int|
        0 <= i < entries.len() && 0 <= j < entries.len() && i != j ==> entries[i].0@ != entries[j].0@
    &&& forall|i: int|
        0 <= i < entries.len() ==> #[trigger] entries[i].1 == count(entries[i].0@) && entries[i].1 > 0
    &&& forall|k: Seq<char>|
        #[trigger] count(k) > 0 ==> exists|i: int| 0 <= i < entries.len() && #[trigger] entries[i].0@ == k
}

/// Does `entries` list, once each, every quarter on which `count` is
/// positive, paired with that count?
pub open spec fn is_tally_by_quarter(entries: Seq<(u8, usize)>, count: spec_fn(u8) -> nat) -> bool {
    &&& forall|i: int, j: int|
        0 <= i < entries.len() && 0 <= j < entries.len() && i != j ==> entries[i].0 != entries[j].0
    &&& forall|i: int|
        0 <= i < entries.len() ==> #[trigger] entries[i].1 == count(entries[i].0) && entries[i].1 > 0
    &&& forall|q: u8|
        #[trigger] count(q) > 0 ==> exists|i: int| 0 <= i < entries.len() && #[trigger] entries[i].0 == q
}

/// The sum of the counts in `entries`.
pub open spec fn sum_counts<K>(entries: Seq<(K, usize)>) -> nat
    decreases entries.len(),
{
    if entries.len() == 0 {
        0
    } else {
        sum_counts(entries.drop_last()) + entries.last().1 as nat
    }
}

proof fn lemma_sum_counts_update<K>(entries: Seq<(K, usize)>, j: int, entry: (K, usize))
    requires
        0 <= j < entries.len(),
    ensures
        sum_counts(entries.update(j, entry)) + entries[j].1 == sum_counts(entries) + entry.1,
    decreases entries.len(),
{
    let updated = entries.update(j, entry);
    if j < entries.len() - 1 {
        assert(updated.drop_last() =~= entries.drop_last().update(j, entry));
        lemma_sum_counts_update(entries.drop_last(), j, entry);
    } else {
        assert(updated.drop_last() =~= entries.drop_last());
    }
}

proof fn lemma_sum_counts_push<K>(entries: Seq<(K, usize)>, entry: (K, usize))
    ensures
        sum_counts(entries.push(entry)) == sum_counts(entries) + entry.1,
{
    assert(entries.push(entry).drop_last() =~= entries);
}

/// Does `entries` list, once each, every key on which `count` is positive
/// (keys compared through `key`), paired with that count?
pub open spec fn is_tally<K, V>(entries: Seq<(K, usize)>, key: spec_fn(K) -> V, count: spec_fn(V) -> nat) -> bool {
    &&& forall|i: int, j: int|
        0 <= i < entries.len() && 0 <= j < entries.len() && i != j ==> key(entries[i].0) != key(entries[j].0)
    &&& forall|i: int|
        0 <= i < entries.len() ==> #[trigger] entries[i].1 == count(key(entries[i].0)) && entries[i].1 > 0
    &&& forall|v: V|
        #[trigger] count(v) > 0 ==> exists|i: int| 0 <= i < entries.len() && #[trigger] key(entries[i].0) == v
}

/// A string is tallied under its text.
pub open spec fn text_key() -> spec_fn(String) -> Seq<char> {
    |s: String| s@
}

/// A quarter is tallied under itself.
pub open spec fn quarter_key() -> spec_fn(u8) -> u8 {
    |q: u8| q
}

/// `count` with one more for `v`.
pub open spec fn bump_count<V>(count: spec_fn(V) -> nat, v: V) -> spec_fn(V) -> nat {
    |w: V| if w == v { count(w) + 1 } else { count(w) }
}

proof fn lemma_text_tally_is_tally(entries: Seq<(String, usize)>, count: spec_fn(Seq<char>) -> nat)
    ensures
        is_tally_by_text(entries, count) == is_tally(entries, text_key(), count),
{
    let key = text_key();
    if is_tally_by_text(entries, count) {
        assert forall|v: Seq<char>| #[trigger] count(v) > 0 implies exists|i: int|
            0 <= i < entries.len() && #[trigger] key(entries[i].0) == v by {
            let i = choose|i: int| 0 <= i < entries.len() && #[trigger] entries[i].0@ == v;
            assert(key(entries[i].0) == v);
        }
    }
    if is_tally(entries, key, count) {
        assert forall|k: Seq<char>| #[trigger] count(k) > 0 implies exists|i: int|
            0 <= i < entries.len() && #[trigger] entries[i].0@ == k by {
            let i = choose|i: int| 0 <= i < entries.len() && #[trigger] key(entries[i].0) == k;
            assert(entries[i].0@ == k);
        }
    }
}

proof fn lemma_quarter_tally_is_tally(entries: Seq<(u8, usize)>, count: spec_fn(u8) -> nat)
    ensures
        is_tally_by_quarter(entries, count) == is_tally(entries, quarter_key(), count),
{
    let key = quarter_key();
    if is_tally_by_quarter(entries, count) {
        assert forall|v: u8| #[trigger] count(v) > 0 implies exists|i: int|
            0 <= i < entries.len() && #[trigger] key(entries[i].0) == v by {
            let i = choose|i: int| 0 <= i < entries.len() && #[trigger] entries[i].0 == v;
            assert(key(entries[i].0) == v);
        }
    }
    if is_tally(entries, key, count) {
        assert forall|q: u8| #[trigger] count(q) > 0 implies exists|i: int|
            0 <= i < entries.len() && #[trigger] entries[i].0 == q by {
            let i = choose|i: int| 0 <= i < entries.len() && #[trigger] key(entries[i].0) == q;
            assert(entries[i].0 == q);
        }
    }
}

/// Raising the count of an entry already in a tally keeps it a tally, of
/// the count with one more for that entry's key.
proof fn lemma_tally_increment<K, V>(
    before: Seq<(K, usize)>,
    i: int,
    entry: (K, usize),
    key: spec_fn(K) -> V,
    count: spec_fn(V) -> nat,
)
    requires
        is_tally(before, key, count),
        0 <= i < before.len(),
        key(entry.0) == key(before[i].0),
        entry.1 == before[i].1 + 1,
    ensures
        is_tally(before.update(i, entry), key, bump_count(count, key(entry.0))),
        sum_counts(before.update(i, entry)) == sum_counts(before) + 1,
{
    let after = before.update(i, entry);
    let bumped = bump_count(count, key(entry.0));
    lemma_sum_counts_update(before, i, entry);
    assert forall|v: V| #[trigger] bumped(v) > 0 implies exists|j: int|
        0 <= j < after.len() && #[trigger] key(after[j].0) == v by {
        if v == key(entry.0) {
            assert(key(after[i].0) == v);
        } else {
            assert(count(v) > 0);
            let j = choose|j: int| 0 <= j < before.len() && #[trigger] key(before[j].0) == v;
            assert(key(after[j].0) == v);
        }
    }
    assert forall|j: int| 0 <= j < after.len() implies #[trigger] after[j].1 == bumped(key(after[j].0))
        && after[j].1 > 0 by {
        if j != i {
            assert(key(before[j].0) != key(before[i].0));
        }
    }
}

/// Adding an entry of count 1 for a key not yet in a tally keeps it a
/// tally, of the count with one more for that key.
proof fn lemma_tally_push<K, V>(before: Seq<(K, usize)>, entry: (K, usize), key: spec_fn(K) -> V, count: spec_fn(V) -> nat)
    requires
        is_tally(before, key, count),
        forall|j: int| 0 <= j < before.len() ==> key(before[j].0) != key(entry.0),
        entry.1 == 1,
    ensures
        is_tally(before.push(entry), key, bump_count(count, key(entry.0))),
        sum_counts(before.push(entry)) == sum_counts(before) + 1,
{
    let after = before.push(entry);
    let bumped = bump_count(count, key(entry.0));
    lemma_sum_counts_push(before, entry);
    assert(count(key(entry.0)) == 0) by {
        if count(key(entry.0)) > 0 {
            let j = choose|j: int| 0 <= j < before.len() && #[trigger] key(before[j].0) == key(entry.0);
        }
    }
    assert forall|v: V| #[trigger] bumped(v) > 0 implies exists|j: int|
        0 <= j < after.len() && #[trigger] key(after[j].0) == v by {
        if v == key(entry.0) {
            assert(key(after[before.len() as int].0) == v);
        } else {
            assert(count(v) > 0);
            let j = choose|j: int| 0 <= j < before.len() && #[trigger] key(before[j].0) == v;
            assert(key(after[j].0) == v);
        }
    }
    assert forall|j: int| 0 <= j < after.len() implies #[trigger] after[j].1 == bumped(key(after[j].0))
        && after[j].1 > 0 by {
        if j < before.len() {
            assert(key(before[j].0) != key(entry.0));
        }
    }
}

/// Counts one more occurrence of `key` in a text tally.
fn bump_text(entries: &mut Vec<(String, usize)>, key: &String, Ghost(count): Ghost<spec_fn(Seq<char>) -> nat>)
    requires
        is_tally_by_text(old(entries)@, count),
        count(key@) < usize::MAX,
    ensures
        is_tally_by_text(final(entries)@, bump_count(count, key@)),
        sum_counts(final(entries)@) == sum_counts(old(entries)@) + 1,
{
    let ghost before = entries@;
    proof {
        lemma_text_tally_is_tally(before, count);
    }
    let mut i: usize = 0;
    while i < entries.len()
        invariant
            entries@ == before,
            before == old(entries)@,
            is_tally(before, text_key(), count),
            count(key@) < usize::MAX,
            i <= before.len(),
            forall|j: int| 0 <= j < i ==> before[j].0@ != key@,
        decreases before.len() - i,
    {
        if entries[i].0.eq(key) {
            let c = entries[i].1;
            entries.set(i, (key.clone(), c + 1));
            proof {
                assert(entries@ =~= before.update(i as int, entries@[i as int]));
                lemma_tally_increment(before, i as int, entries@[i as int], text_key(), count);
                lemma_text_tally_is_tally(entries@, bump_count(count, key@));
            }
            return;
        }
        i += 1;
    }
    entries.push((key.clone(), 1));
    proof {
        let entry = entries@[before.len() as int];
        assert(entries@ =~= before.push(entry));
        lemma_tally_push(before, entry, text_key(), count);
        lemma_text_tally_is_tally(entries@, bump_count(count, key@));
    }
}

/// Counts one more tag in quarter `key` in a quarter tally.
fn bump_quarter(entries: &mut Vec<(u8, usize)>, key: u8, Ghost(count): Ghost<spec_fn(u8) -> nat>)
    requires
        is_tally_by_quarter(old(entries)@, count),
        count(key) < usize::MAX,
    ensures
        is_tally_by_quarter(final(entries)@, bump_count(count, key)),
        sum_counts(final(entries)@) == sum_counts(old(entries)@) + 1,
{
    let ghost before = entries@;
    proof {
        lemma_quarter_tally_is_tally(before, count);
    }
    let mut i: usize = 0;
    while i < entries.len()
        invariant
            entries@ == before,
            before == old(entries)@,
            is_tally(before, quarter_key(), count),
            count(key) < usize::MAX,
            i <= before.len(),
            forall|j: int| 0 <= j < i ==> before[j].0 != key,
        decreases before.len() - i,
    {
        if entries[i].0 == key {
            let c = entries[i].1;
            entries.set(i, (key, c + 1));
            proof {
                assert(entries@ =~= before.update(i as int, entries@[i as int]));
                lemma_tally_increment(before, i as int, entries@[i as int], quarter_key(), count);
                lemma_quarter_tally_is_tally(entries@, bump_count(count, key));
            }
            return;
        }
        i += 1;
    }
    entries.push((key, 1));
    proof {
        let entry = entries@[before.len() as int];
        assert(entries@ =~= before.push(entry));
        lemma_tally_push(before, entry, quarter_key(), count);
        lemma_quarter_tally_is_tally(entries@, bump_count(count, key));
    }
}

proof fn lemma_tally_by_text_ext(entries: Seq<(String, usize)>, f: spec_fn(Seq<char>) -> nat, g: spec_fn(Seq<char>) -> nat)
    requires
        is_tally_by_text(entries, f),
        forall|k: Seq<char>| #[trigger] f(k) == g(k),
    ensures
        is_tally_by_text(entries, g),
{
    assert(f =~= g);
}

proof fn lemma_tally_by_quarter_ext(entries: Seq<(u8, usize)>, f: spec_fn(u8) -> nat, g: spec_fn(u8) -> nat)
    requires
        is_tally_by_quarter(entries, f),
        forall|q: u8| #[trigger] f(q) == g(q),
    ensures
        is_tally_by_quarter(entries, g),
{
    assert(f =~= g);
}

/// How many tags carry each category label.
fn tally_categories(tags: &Vec<Tag>) -> (entries: Vec<(String, usize)>)
    ensures
        is_tally_by_text(entries@, category_counts(tags@)),
        sum_counts(entries@) == tags@.len(),
{
    let mut entries: Vec<(String, usize)> = Vec::new();
    let mut i: usize = 0;
    while i < tags.len()
        invariant
            i <= tags@.len(),
            is_tally_by_text(entries@, category_counts(tags@.take(i as int))),
            sum_counts(entries@) == i,
        decreases tags@.len() - i,
    {
        let label = tags[i].category.to_string();
        let ghost count = category_counts(tags@.take(i as int));
        proof {
            lemma_indicator_bound(tags@.take(i as int), Measure::InCategory(label@));
        }
        bump_text(&mut entries, &label, Ghost(count));
        proof {
            assert forall|k: Seq<char>| #[trigger] tally(tags@.take(i + 1), Measure::InCategory(k)) == (if k
                == label@ {
                count(k) + 1
            } else {
                count(k)
            }) by {
                lemma_tally_step(tags@, i as int, Measure::InCategory(k));
            }
            lemma_tally_by_text_ext(
                entries@,
                bump_count(count, label@),
                category_counts(tags@.take(i + 1)),
            );
        }
        i += 1;
    }
    proof {
        assert(tags@.take(tags@.len() as int) =~= tags@);
    }
    entries
}

/// How many tags fall in each quarter.
fn tally_quarters(tags: &Vec<Tag>) -> (entries: Vec<(u8, usize)>)
    ensures
        is_tally_by_quarter(entries@, quarter_counts(tags@)),
        sum_counts(entries@) == tally(tags@, Measure::WithQuarter),
{
    let mut entries: Vec<(u8, usize)> = Vec::new();
    let mut i: usize = 0;
    while i < tags.len()
        invariant
            i <= tags@.len(),
            is_tally_by_quarter(entries@, quarter_counts(tags@.take(i as int))),
            sum_counts(entries@) == tally(tags@.take(i as int), Measure::WithQuarter),
        decreases tags@.len() - i,
    {
        let ghost count = quarter_counts(tags@.take(i as int));
        proof {
            lemma_tally_step(tags@, i as int, Measure::WithQuarter);
        }
        if let Some(quarter) = tags[i].quarter {
            proof {
                lemma_indicator_bound(tags@.take(i as int), Measure::InQuarter(quarter));
            }
            bump_quarter(&mut entries, quarter, Ghost(count));
            proof {
                assert forall|q: u8| #[trigger] tally(tags@.take(i + 1), Measure::InQuarter(q)) == (if q
                    == quarter {
                    count(q) + 1
                } else {
                    count(q)
                }) by {
                    lemma_tally_step(tags@, i as int, Measure::InQuarter(q));
                }
                lemma_tally_by_quarter_ext(
                    entries@,
                    bump_count(count, quarter),
                    quarter_counts(tags@.take(i + 1)),
                );
            }
        } else {
            proof {
                assert forall|q: u8| #[trigger] count(q) == tally(tags@.take(i + 1), Measure::InQuarter(q)) by {
                    lemma_tally_step(tags@, i as int, Measure::InQuarter(q));
                }
                lemma_tally_by_quarter_ext(
                    entries@,
                    count,
                    quarter_counts(tags@.take(i + 1)),
                );
            }
        }
        i += 1;
    }
    proof {
        assert(tags@.take(tags@.len() as int) =~= tags@);
    }
    entries
}

/// How many tags lie in each court zone, keyed by the zone's name.
fn tally_zones(tags: &Vec<Tag>) -> (entries: Vec<(String, usize)>)
    ensures
        is_tally_by_text(entries@, zone_counts(tags@)),
        sum_counts(entries@) == tally(tags@, Measure::WithZone),
{
    let mut entries: Vec<(String, usize)> = Vec::new();
    let mut i: usize = 0;
    while i < tags.len()
        invariant
            i <= tags@.len(),
            is_tally_by_text(entries@, zone_counts(tags@.take(i as int))),
            sum_counts(entries@) == tally(tags@.take(i as int), Measure::WithZone),
        decreases tags@.len() - i,
    {
        let ghost count = zone_counts(tags@.take(i as int));
        proof {
            lemma_tally_step(tags@, i as int, Measure::WithZone);
        }
        if let Some(zone) = tags[i].court_zone {
            let name = zone.name();
            proof {
                lemma_indicator_bound(tags@.take(i as int), Measure::InZone(name@));
            }
            bump_text(&mut entries, &name, Ghost(count));
            proof {
                assert forall|k: Seq<char>| #[trigger] tally(tags@.take(i + 1), Measure::InZone(k)) == (if k
                    == name@ {
                    count(k) + 1
                } else {
                    count(k)
                }) by {
                    lemma_tally_step(tags@, i as int, Measure::InZone(k));
                }
                lemma_tally_by_text_ext(
                    entries@,
                    bump_count(count, name@),
                    zone_counts(tags@.take(i + 1)),
                );
            }
        } else {
            proof {
                assert forall|k: Seq<char>| #[trigger] count(k) == tally(tags@.take(i + 1), Measure::InZone(k)) by {
                    lemma_tally_step(tags@, i as int, Measure::InZone(k));
                }
                lemma_tally_by_text_ext(
                    entries@,
                    count,
                    zone_counts(tags@.take(i + 1)),
                );
            }
        }
        i += 1;
    }
    proof {
        assert(tags@.take(tags@.len() as int) =~= tags@);
    }
    entries
}

proof fn lemma_occurrences_step(ids: Seq<String>, j: int, id: Seq<char>)
    requires
        0 <= j < ids.len(),
    ensures
        occurrences(ids.take(j + 1), id) == occurrences(ids.take(j), id) + if ids[j]@ == id {
            1nat
        } else {
            0nat
        },
{
    assert(ids.take(j + 1).drop_last() =~= ids.take(j));
}

proof fn lemma_occurrences_bound(ids: Seq<String>, id: Seq<char>)
    ensures
        occurrences(ids, id) <= ids.len(),
    decreases ids.len(),
{
    if ids.len() > 0 {
        lemma_occurrences_bound(ids.drop_last(), id);
    }
}

proof fn lemma_involving_bound(tags: Seq<Tag>, id: Seq<char>)
    ensures
        tally(tags, Measure::Involving(id)) <= tally(tags, Measure::PlayerRefs),
    decreases tags.len(),
{
    if tags.len() > 0 {
        lemma_involving_bound(tags.drop_last(), id);
        lemma_occurrences_bound(tags.last().player_ids@, id);
    }
}

proof fn lemma_tally_prefix(tags: Seq<Tag>, i: int, measure: Measure)
    requires
        0 <= i <= tags.len(),
    ensures
        tally(tags.take(i), measure) <= tally(tags, measure),
    decreases tags.len() - i,
{
    if i < tags.len() {
        lemma_tally_step(tags, i, measure);
        lemma_tally_prefix(tags, i + 1, measure);
    } else {
        assert(tags.take(i) =~= tags);
    }
}

/// How often each player id is listed over all tags.
fn tally_involvement(tags: &Vec<Tag>) -> (entries: Vec<(String, usize)>)
    requires
        tally(tags@, Measure::PlayerRefs) <= usize::MAX,
    ensures
        is_tally_by_text(entries@, involvement_counts(tags@)),
{
    let mut entries: Vec<(String, usize)> = Vec::new();
    let mut i: usize = 0;
    while i < tags.len()
        invariant
            i <= tags@.len(),
            tally(tags@, Measure::PlayerRefs) <= usize::MAX,
            is_tally_by_text(entries@, involvement_counts(tags@.take(i as int))),
        decreases tags@.len() - i,
    {
        let ids = &tags[i].player_ids;
        let ghost before = involvement_counts(tags@.take(i as int));
        proof {
            lemma_tally_step(tags@, i as int, Measure::PlayerRefs);
            lemma_tally_prefix(tags@, i + 1, Measure::PlayerRefs);
            lemma_tally_by_text_ext(
                entries@,
                before,
                |k: Seq<char>| before(k) + occurrences(ids@.take(0), k),
            );
        }
        let mut j: usize = 0;
        while j < ids.len()
            invariant
                i < tags@.len(),
                ids@ == tags@[i as int].player_ids@,
                j <= ids@.len(),
                before == (involvement_counts(tags@.take(i as int))),
                tally(tags@.take(i as int), Measure::PlayerRefs) + ids@.len() <= usize::MAX,
                is_tally_by_text(entries@, |k: Seq<char>| before(k) + occurrences(ids@.take(j as int), k)),
            decreases ids@.len() - j,
        {
            let ghost count = |k: Seq<char>| before(k) + occurrences(ids@.take(j as int), k);
            proof {
                lemma_involving_bound(tags@.take(i as int), ids@[j as int]@);
                lemma_occurrences_bound(ids@.take(j as int), ids@[j as int]@);
            }
            bump_text(&mut entries, &ids[j], Ghost(count));
            proof {
                assert forall|k: Seq<char>| #[trigger] occurrences(ids@.take(j + 1), k) == occurrences(
                    ids@.take(j as int),
                    k,
                ) + if ids@[j as int]@ == k {
                    1nat
                } else {
                    0nat
                } by {
                    lemma_occurrences_step(ids@, j as int, k);
                }
                lemma_tally_by_text_ext(
                    entries@,
                    bump_count(count, ids@[j as int]@),
                    |k: Seq<char>| before(k) + occurrences(ids@.take(j + 1), k),
                );
            }
            j += 1;
        }
        proof {
            assert(ids@.take(ids@.len() as int) =~= ids@);
            assert forall|k: Seq<char>| #[trigger] tally(tags@.take(i + 1), Measure::Involving(k)) == before(k)
                + occurrences(ids@, k) by {
                lemma_tally_step(tags@, i as int, Measure::Involving(k));
            }
            lemma_tally_by_text_ext(
                entries@,
                |k: Seq<char>| before(k) + occurrences(ids@.take(ids@.len() as int), k),
                involvement_counts(tags@.take(i + 1)),
            );
        }
        i += 1;
    }
    proof {
        assert(tags@.take(tags@.len() as int) =~= tags@);
    }
    entries
}

/// Are the keys of `entries` pairwise different texts?
pub open spec fn keys_distinct(entries: Seq<(String, usize)>) -> bool {
    forall|i: int, j: int|
        0 <= i < entries.len() && 0 <= j < entries.len() && i != j ==> entries[i].0@ != entries[j].0@
}

/// Does `entries` hold an entry with key `text` and count `count`?
pub open spec fn has_entry(entries: Seq<(String, usize)>, text: Seq<char>, count: usize) -> bool {
    exists|i: int| 0 <= i < entries.len() && entries[i].0@ == text && entries[i].1 == count
}

/// Does `entries` hold an entry with key `text`?
pub open spec fn has_key(entries: Seq<(String, usize)>, text: Seq<char>) -> bool {
    exists|i: int| 0 <= i < entries.len() && entries[i].0@ == text
}

/// Is `top` a leaderboard of `entries` holding at most `limit` places:
/// entries of `entries` with different keys, highest count first, such that
/// an entry left out only when the board is full and then has a count no
/// higher than the last place?
pub open spec fn is_top_of(top: Seq<(String, usize)>, entries: Seq<(String, usize)>, limit: nat) -> bool {
    &&& top.len() <= limit
    &&& forall|a: int| 0 <= a < top.len() ==> has_entry(entries, (#[trigger] top[a]).0@, top[a].1)
    &&& forall|a: int, b: int| 0 <= a < b < top.len() ==> top[a].0@ != top[b].0@ && top[a].1 >= top[b].1
    &&& forall|i: int|
        0 <= i < entries.len() && !has_key(top, #[trigger] entries[i].0@) ==> top.len() == limit && (limit > 0
            ==> entries[i].1 <= top[limit - 1].1)
}

/// The entries with the highest counts, at most `limit` of them, highest
/// first.
fn select_top(entries: &Vec<(String, usize)>, limit: usize) -> (top: Vec<(String, usize)>)
    requires
        keys_distinct(entries@),
    ensures
        is_top_of(top@, entries@, limit as nat),
{
    let n = entries.len();
    let mut picked: Vec<bool> = vec![false; n];
    let mut top: Vec<(String, usize)> = Vec::new();
    let ghost mut chosen: Seq<int> = Seq::empty();
    while top.len() < limit
        invariant
            n == entries@.len(),
            picked@.len() == n,
            keys_distinct(entries@),
            chosen.len() == top@.len(),
            top@.len() <= limit,
            forall|a: int|
                0 <= a < chosen.len() ==> 0 <= #[trigger] chosen[a] < n && top@[a].0@ == entries@[chosen[a]].0@
                    && top@[a].1 == entries@[chosen[a]].1,
            forall|i: int| 0 <= i < n ==> (#[trigger] picked@[i] <==> exists|a: int| 0 <= a < chosen.len() && chosen[a] == i),
            forall|a: int, b: int| 0 <= a < b < chosen.len() ==> chosen[a] != chosen[b],
            forall|a: int, b: int| 0 <= a < b < top@.len() ==> top@[a].1 >= top@[b].1,
            forall|i: int|
                0 <= i < n && !picked@[i] && top@.len() > 0 ==> #[trigger] entries@[i].1 <= top@[top@.len() - 1].1,
        ensures
            n == entries@.len(),
            picked@.len() == n,
            chosen.len() == top@.len(),
            top@.len() <= limit,
            forall|a: int|
                0 <= a < chosen.len() ==> 0 <= #[trigger] chosen[a] < n && top@[a].0@ == entries@[chosen[a]].0@
                    && top@[a].1 == entries@[chosen[a]].1,
            forall|i: int| 0 <= i < n ==> (#[trigger] picked@[i] <==> exists|a: int| 0 <= a < chosen.len() && chosen[a] == i),
            forall|a: int, b: int| 0 <= a < b < chosen.len() ==> chosen[a] != chosen[b],
            forall|a: int, b: int| 0 <= a < b < top@.len() ==> top@[a].1 >= top@[b].1,
            forall|i: int|
                0 <= i < n && !picked@[i] && top@.len() > 0 ==> #[trigger] entries@[i].1 <= top@[top@.len() - 1].1,
            top@.len() == limit || forall|i: int| 0 <= i < n ==> #[trigger] picked@[i],
        decreases limit - top@.len(),
    {
        let mut best: Option<usize> = None;
        let mut i: usize = 0;
        while i < n
            invariant
                n == entries@.len(),
                picked@.len() == n,
                i <= n,
                match best {
                    Some(b) => b < i && !picked@[b as int] && forall|j: int|
                        0 <= j < i && !picked@[j] ==> #[trigger] entries@[j].1 <= entries@[b as int].1,
                    None => forall|j: int| 0 <= j < i ==> #[trigger] picked@[j],
                },
            decreases n - i,
        {
            if !picked[i] {
                match best {
                    None => {
                        best = Some(i);
                    },
                    Some(b) => {
                        if entries[i].1 > entries[b].1 {
                            best = Some(i);
                        }
                    },
                }
            }
            i += 1;
        }
        match best {
            None => {
                break;
            },
            Some(b) => {
                let ghost old_top = top@;
                let ghost old_picked = picked@;
                top.push((entries[b].0.clone(), entries[b].1));
                picked.set(b, true);
                proof {
                    let old_chosen = chosen;
                    assert forall|k: int| 0 <= k < old_chosen.len() implies old_chosen[k] != b by {
                        assert(old_picked[old_chosen[k]]);
                    }
                    chosen = chosen.push(b as int);
                    assert forall|j: int| 0 <= j < n implies (#[trigger] picked@[j] <==> exists|a: int|
                        0 <= a < chosen.len() && chosen[a] == j) by {
                        if j == b {
                            assert(chosen[chosen.len() - 1] == j);
                        } else if old_picked[j] {
                            let a = choose|a: int| 0 <= a < old_chosen.len() && old_chosen[a] == j;
                            assert(chosen[a] == j);
                        } else {
                            if exists|a: int| 0 <= a < chosen.len() && chosen[a] == j {
                                let a = choose|a: int| 0 <= a < chosen.len() && chosen[a] == j;
                                assert(a < old_chosen.len());
                                assert(old_chosen[a] == j);
                                assert(old_picked[j]);
                            }
                        }
                    }
                }
            },
        }
    }
    proof {
        assert forall|a: int| 0 <= a < top@.len() implies has_entry(entries@, (#[trigger] top@[a]).0@, top@[a].1) by {
            let i = chosen[a];
            assert(0 <= i < entries@.len() && entries@[i].0@ == top@[a].0@ && entries@[i].1 == top@[a].1);
        }
        assert forall|a: int, b: int| 0 <= a < b < top@.len() implies top@[a].0@ != top@[b].0@ by {
            assert(chosen[a] != chosen[b]);
        }
        assert forall|i: int|
            0 <= i < entries@.len() && !has_key(top@, #[trigger] entries@[i].0@) implies top@.len() == limit && (
            limit > 0 ==> entries@[i].1 <= top@[limit - 1].1) by {
            if picked@[i] {
                let a = choose|a: int| 0 <= a < chosen.len() && chosen[a] == i;
                assert(top@[a].0@ == entries@[i].0@);
                assert(has_key(top@, entries@[i].0@));
            } else if top@.len() != limit {
                assert(forall|j: int| 0 <= j < n ==> #[trigger] picked@[j]);
                assert(picked@[i]);
            }
        }
    }
    top
}

/// How many possessions each side had among the tagged plays.
#[derive(Debug, Clone, Copy, PartialEq, Eq, Default)]
pub struct PossessionBreakdown {
    pub home_possessions: usize,
    pub away_possessions: usize,
}

fn count_possessions(tags: &Vec<Tag>) -> (breakdown: PossessionBreakdown)
    ensures
        breakdown.home_possessions == tally(tags@, Measure::WithPossession(Possession::Home)),
        breakdown.away_possessions == tally(tags@, Measure::WithPossession(Possession::Away)),
        breakdown.home_possessions + breakdown.away_possessions == tally(tags@, Measure::AnyPossession),
{
    let mut breakdown = PossessionBreakdown { home_possessions: 0, away_possessions: 0 };
    let mut i: usize = 0;
    while i < tags.len()
        invariant
            i <= tags@.len(),
            breakdown.home_possessions == tally(tags@.take(i as int), Measure::WithPossession(Possession::Home)),
            breakdown.away_possessions == tally(tags@.take(i as int), Measure::WithPossession(Possession::Away)),
            breakdown.home_possessions + breakdown.away_possessions == tally(tags@.take(i as int), Measure::AnyPossession),
        decreases tags@.len() - i,
    {
        proof {
            lemma_tally_step(tags@, i as int, Measure::WithPossession(Possession::Home));
            lemma_tally_step(tags@, i as int, Measure::WithPossession(Possession::Away));
            lemma_tally_step(tags@, i as int, Measure::AnyPossession);
            lemma_indicator_bound(tags@.take(i as int), Measure::AnyPossession);
        }
        match tags[i].possession {
            Some(Possession::Home) => breakdown.home_possessions = breakdown.home_possessions + 1,
            Some(Possession::Away) => breakdown.away_possessions = breakdown.away_possessions + 1,
            None => {},
        }
        i += 1;
    }
    proof {
        assert(tags@.take(tags@.len() as int) =~= tags@);
    }
    breakdown
}

fn count_shots(tags: &Vec<Tag>) -> (shots: ShotResultStats)
    ensures
        shots.made == tally(tags@, Measure::WithShot(ShotResult::Made)),
        shots.missed == tally(tags@, Measure::WithShot(ShotResult::Missed)),
        shots.blocked == tally(tags@, Measure::WithShot(ShotResult::Blocked)),
        shots.fouled == tally(tags@, Measure::WithShot(ShotResult::Fouled)),
        shots.made + shots.missed + shots.blocked + shots.fouled == tally(tags@, Measure::AnyShot),
{
    let mut shots = ShotResultStats { made: 0, missed: 0, blocked: 0, fouled: 0 };
    let mut i: usize = 0;
    while i < tags.len()
        invariant
            i <= tags@.len(),
            shots.made == tally(tags@.take(i as int), Measure::WithShot(ShotResult::Made)),
            shots.missed == tally(tags@.take(i as int), Measure::WithShot(ShotResult::Missed)),
            shots.blocked == tally(tags@.take(i as int), Measure::WithShot(ShotResult::Blocked)),
            shots.fouled == tally(tags@.take(i as int), Measure::WithShot(ShotResult::Fouled)),
            shots.made + shots.missed + shots.blocked + shots.fouled == tally(tags@.take(i as int), Measure::AnyShot),
        decreases tags@.len() - i,
    {
        proof {
            lemma_tally_step(tags@, i as int, Measure::WithShot(ShotResult::Made));
            lemma_tally_step(tags@, i as int, Measure::WithShot(ShotResult::Missed));
            lemma_tally_step(tags@, i as int, Measure::WithShot(ShotResult::Blocked));
            lemma_tally_step(tags@, i as int, Measure::WithShot(ShotResult::Fouled));
            lemma_tally_step(tags@, i as int, Measure::AnyShot);
            lemma_indicator_bound(tags@.take(i as int), Measure::AnyShot);
        }
        match tags[i].shot_result {
            Some(ShotResult::Made) => shots.made = shots.made + 1,
            Some(ShotResult::Missed) => shots.missed = shots.missed + 1,
            Some(ShotResult::Blocked) => shots.blocked = shots.blocked + 1,
            Some(ShotResult::Fouled) => shots.fouled = shots.fouled + 1,
            None => {},
        }
        i += 1;
    }
    proof {
        assert(tags@.take(tags@.len() as int) =~= tags@);
    }
    shots
}

/// Is `top` the list of the most involved players of `tags`: at most ten
/// different player ids with their involvement counts, highest first, such
/// that a player is left out only when the list is full and was involved no
/// more often than the tenth?
pub open spec fn is_top_players(top: Seq<(String, usize)>, tags: Seq<Tag>) -> bool {
    &&& top.len() <= 10
    &&& forall|a: int|
        0 <= a < top.len() ==> #[trigger] top[a].1 == tally(tags, Measure::Involving(top[a].0@)) && top[a].1 > 0
    &&& forall|a: int, b: int| 0 <= a < b < top.len() ==> top[a].0@ != top[b].0@ && top[a].1 >= top[b].1
    &&& forall|p: Seq<char>|
        #[trigger] tally(tags, Measure::Involving(p)) > 0 && !has_key(top, p) ==> top.len() == 10 && tally(
            tags,
            Measure::Involving(p),
        ) <= top[9].1
}

proof fn lemma_top_players(top: Seq<(String, usize)>, involvement: Seq<(String, usize)>, tags: Seq<Tag>)
    requires
        is_tally_by_text(involvement, involvement_counts(tags)),
        is_top_of(top, involvement, 10),
    ensures
        is_top_players(top, tags),
{
    let count = involvement_counts(tags);
    assert forall|a: int| 0 <= a < top.len() implies #[trigger] top[a].1 == tally(
        tags,
        Measure::Involving(top[a].0@),
    ) && top[a].1 > 0 by {
        assert(has_entry(involvement, top[a].0@, top[a].1));
        let i = choose|i: int|
            0 <= i < involvement.len() && involvement[i].0@ == top[a].0@ && involvement[i].1 == top[a].1;
        assert(involvement[i].1 == count(involvement[i].0@));
    }
    assert forall|p: Seq<char>| #[trigger] tally(tags, Measure::Involving(p)) > 0 && !has_key(top, p) implies top.len()
        == 10 && tally(tags, Measure::Involving(p)) <= top[9].1 by {
        assert(count(p) > 0);
        let i = choose|i: int| 0 <= i < involvement.len() && #[trigger] involvement[i].0@ == p;
        assert(involvement[i].1 == count(involvement[i].0@));
    }
}

/// The statistics of a video (or of all videos) computed from its tags.
/// (The average clip length is computed by the application, which keeps the
/// tags' times.)
#[derive(Debug, Clone)]
pub struct GameStats {
    pub video_id: String,
    pub total_tags: usize,
    pub tags_by_category: Vec<(String, usize)>,
    pub tags_by_quarter: Vec<(u8, usize)>,
    pub possession_breakdown: PossessionBreakdown,
    pub shot_results: ShotResultStats,
    pub top_players_by_involvement: Vec<(String, usize)>,
    pub court_zone_distribution: Vec<(String, usize)>,
    pub matrix: DataMatrix,
}

/// Are `stats` the statistics of `tags` (under any video id): the number
/// of tags; how many carry each category label, fall in each quarter, lie in
/// each court zone, had each possession and ended with each shot result;
/// the leaderboard of involved players; and the category matrix?
pub open spec fn is_stats_of(stats: GameStats, tags: Seq<Tag>) -> bool {
    &&& stats.total_tags == tags.len()
    &&& is_tally_by_text(stats.tags_by_category@, category_counts(tags))
    &&& sum_counts(stats.tags_by_category@) == tags.len()
    &&& is_tally_by_quarter(stats.tags_by_quarter@, quarter_counts(tags))
    &&& sum_counts(stats.tags_by_quarter@) == tally(tags, Measure::WithQuarter)
    &&& stats.possession_breakdown.home_possessions == tally(tags, Measure::WithPossession(Possession::Home))
    &&& stats.possession_breakdown.away_possessions == tally(tags, Measure::WithPossession(Possession::Away))
    &&& stats.possession_breakdown.home_possessions + stats.possession_breakdown.away_possessions == tally(
        tags,
        Measure::AnyPossession,
    )
    &&& stats.shot_results.made == tally(tags, Measure::WithShot(ShotResult::Made))
    &&& stats.shot_results.missed == tally(tags, Measure::WithShot(ShotResult::Missed))
    &&& stats.shot_results.blocked == tally(tags, Measure::WithShot(ShotResult::Blocked))
    &&& stats.shot_results.fouled == tally(tags, Measure::WithShot(ShotResult::Fouled))
    &&& stats.shot_results.made + stats.shot_results.missed + stats.shot_results.blocked
        + stats.shot_results.fouled == tally(tags, Measure::AnyShot)
    &&& is_top_players(stats.top_players_by_involvement@, tags)
    &&& is_tally_by_text(stats.court_zone_distribution@, zone_counts(tags))
    &&& sum_counts(stats.court_zone_distribution@) == tally(tags, Measure::WithZone)
    &&& is_matrix_of(stats.matrix, tags)
}

/// Compute the statistics of `tags` under the name `video_id`.
///
/// Each tally lists every key once; the order of its entries is not part
/// of the result (they serve as maps). Players with equal involvement may
/// stand in either order on the leaderboard.
pub fn compute_stats(video_id: &str, tags: &Vec<Tag>) -> (stats: GameStats)
    requires
        tally(tags@, Measure::PlayerRefs) <= usize::MAX,
    ensures
        stats.video_id@ == video_id@,
        is_stats_of(stats, tags@),
{
    let tags_by_category = tally_categories(tags);
    let tags_by_quarter = tally_quarters(tags);
    let involvement = tally_involvement(tags);
    let court_zone_distribution = tally_zones(tags);
    let possession_breakdown = count_possessions(tags);
    let shot_results = count_shots(tags);
    let top_players_by_involvement = select_top(&involvement, 10);
    proof {
        lemma_top_players(top_players_by_involvement@, involvement@, tags@);
    }
    GameStats {
        video_id: video_id.to_string(),
        total_tags: tags.len(),
        tags_by_category,
        tags_by_quarter,
        possession_breakdown,
        shot_results,
        top_players_by_involvement,
        court_zone_distribution,
        matrix: DataMatrix::from_tags(tags),
    }
}

/// The sum of the diagonal of a category matrix.
pub open spec fn diagonal_sum(matrix: DataMatrix) -> int {
    matrix.cells@[0]@[0] + matrix.cells@[1]@[1] + matrix.cells@[2]@[2] + matrix.cells@[3]@[3]
        + matrix.cells@[4]@[4] + matrix.cells@[5]@[5]
}

proof fn lemma_six_labels_bound(tags: Seq<Tag>)
    ensures
        tally(tags, Measure::InCategory(matrix_labels()[0])) + tally(tags, Measure::InCategory(matrix_labels()[1]))
            + tally(tags, Measure::InCategory(matrix_labels()[2])) + tally(
            tags,
            Measure::InCategory(matrix_labels()[3]),
        ) + tally(tags, Measure::InCategory(matrix_labels()[4])) + tally(
            tags,
            Measure::InCategory(matrix_labels()[5]),
        ) <= tags.len(),
    decreases tags.len(),
{
    lemma_matrix_labels_distinct();
    if tags.len() > 0 {
        lemma_six_labels_bound(tags.drop_last());
    }
}

/// Each tag counts on the matrix diagonal at most once, so the diagonal
/// adds up to no more than the number of tags.
pub proof fn law_matrix_diagonal_bounded(matrix: DataMatrix, tags: Seq<Tag>)
    requires
        is_matrix_of(matrix, tags),
    ensures
        diagonal_sum(matrix) <= tags.len(),
{
    lemma_six_labels_bound(tags);
    assert(matrix.cells@[0]@[0] == tally(tags, Measure::InCategory(matrix_labels()[0])));
    assert(matrix.cells@[1]@[1] == tally(tags, Measure::InCategory(matrix_labels()[1])));
    assert(matrix.cells@[2]@[2] == tally(tags, Measure::InCategory(matrix_labels()[2])));
    assert(matrix.cells@[3]@[3] == tally(tags, Measure::InCategory(matrix_labels()[3])));
    assert(matrix.cells@[4]@[4] == tally(tags, Measure::InCategory(matrix_labels()[4])));
    assert(matrix.cells@[5]@[5] == tally(tags, Measure::InCategory(matrix_labels()[5])));
}

/// The matrix diagonal agrees with the category tally: a label with a
/// non-zero diagonal cell is tallied with that count, and a label with a
/// zero cell is not tallied at all.
pub proof fn law_matrix_matches_category_tally(
    matrix: DataMatrix,
    by_category: Seq<(String, usize)>,
    tags: Seq<Tag>,
    i: int,
)
    requires
        is_matrix_of(matrix, tags),
        is_tally_by_text(by_category, category_counts(tags)),
        0 <= i < 6,
    ensures
        matrix.cells@[i]@[i] > 0 ==> has_entry(by_category, matrix_labels()[i], matrix.cells@[i]@[i]),
        matrix.cells@[i]@[i] == 0 ==> !has_key(by_category, matrix_labels()[i]),
{
    let label = matrix_labels()[i];
    let count = category_counts(tags);
    assert(matrix.cells@[i]@[i] == count(label));
    if count(label) > 0 {
        let a = choose|a: int| 0 <= a < by_category.len() && #[trigger] by_category[a].0@ == label;
        assert(by_category[a].1 == count(by_category[a].0@));
    } else if has_key(by_category, label) {
        let a = choose|a: int| 0 <= a < by_category.len() && by_category[a].0@ == label;
        assert(by_category[a].1 == count(by_category[a].0@));
    }
}

/// A statistic of two tag lists joined is the sum of the statistic over
/// each.
pub proof fn law_tally_of_joined_tags(a: Seq<Tag>, b: Seq<Tag>, measure: Measure)
    ensures
        tally(a + b, measure) == tally(a, measure) + tally(b, measure),
    decreases b.len(),
{
    if b.len() == 0 {
        assert(a + b =~= a);
    } else {
        law_tally_of_joined_tags(a, b.drop_last(), measure);
        assert((a + b).drop_last() =~= a + b.drop_last());
    }
}

/// The count a text tally holds for `key`, 0 when the key is absent.
pub open spec fn tallied_text(entries: Seq<(String, usize)>, key: Seq<char>) -> nat {
    if has_key(entries, key) {
        entries[choose|i: int| 0 <= i < entries.len() && entries[i].0@ == key].1 as nat
    } else {
        0
    }
}

/// Does `entries` hold an entry for quarter `q`?
pub open spec fn has_quarter(entries: Seq<(u8, usize)>, q: u8) -> bool {
    exists|i: int| 0 <= i < entries.len() && entries[i].0 == q
}

/// The count a quarter tally holds for `q`, 0 when the quarter is absent.
pub open spec fn tallied_quarter(entries: Seq<(u8, usize)>, q: u8) -> nat {
    if has_quarter(entries, q) {
        entries[choose|i: int| 0 <= i < entries.len() && entries[i].0 == q].1 as nat
    } else {
        0
    }
}

proof fn lemma_tallied_text(entries: Seq<(String, usize)>, count: spec_fn(Seq<char>) -> nat, key: Seq<char>)
    requires
        is_tally_by_text(entries, count),
    ensures
        tallied_text(entries, key) == count(key),
{
    if has_key(entries, key) {
        let i = choose|i: int| 0 <= i < entries.len() && entries[i].0@ == key;
        assert(entries[i].1 == count(entries[i].0@));
    } else if count(key) > 0 {
        let i = choose|i: int| 0 <= i < entries.len() && #[trigger] entries[i].0@ == key;
        assert(has_key(entries, key));
    }
}

proof fn lemma_tallied_quarter(entries: Seq<(u8, usize)>, count: spec_fn(u8) -> nat, q: u8)
    requires
        is_tally_by_quarter(entries, count),
    ensures
        tallied_quarter(entries, q) == count(q),
{
    if has_quarter(entries, q) {
        let i = choose|i: int| 0 <= i < entries.len() && entries[i].0 == q;
        assert(entries[i].1 == count(entries[i].0));
    } else if count(q) > 0 {
        let i = choose|i: int| 0 <= i < entries.len() && #[trigger] entries[i].0 == q;
        assert(has_quarter(entries, q));
    }
}

/// The statistics of two tag lists joined are the sums of the statistics of
/// each: the tag totals, the category, quarter and court-zone tallies key by
/// key, the possession and shot counts field by field, and the category
/// matrix cell by cell.
pub proof fn law_stats_of_joined_tags(a: Seq<Tag>, b: Seq<Tag>, sa: GameStats, sb: GameStats, joined: GameStats)
    requires
        is_stats_of(sa, a),
        is_stats_of(sb, b),
        is_stats_of(joined, a + b),
    ensures
        joined.total_tags == sa.total_tags + sb.total_tags,
        forall|k: Seq<char>|
            #[trigger] tallied_text(joined.tags_by_category@, k) == tallied_text(sa.tags_by_category@, k)
                + tallied_text(sb.tags_by_category@, k),
        forall|q: u8|
            #[trigger] tallied_quarter(joined.tags_by_quarter@, q) == tallied_quarter(sa.tags_by_quarter@, q)
                + tallied_quarter(sb.tags_by_quarter@, q),
        forall|k: Seq<char>|
            #[trigger] tallied_text(joined.court_zone_distribution@, k) == tallied_text(
                sa.court_zone_distribution@,
                k,
            ) + tallied_text(sb.court_zone_distribution@, k),
        joined.possession_breakdown.home_possessions == sa.possession_breakdown.home_possessions
            + sb.possession_breakdown.home_possessions,
        joined.possession_breakdown.away_possessions == sa.possession_breakdown.away_possessions
            + sb.possession_breakdown.away_possessions,
        joined.shot_results.made == sa.shot_results.made + sb.shot_results.made,
        joined.shot_results.missed == sa.shot_results.missed + sb.shot_results.missed,
        joined.shot_results.blocked == sa.shot_results.blocked + sb.shot_results.blocked,
        joined.shot_results.fouled == sa.shot_results.fouled + sb.shot_results.fouled,
        forall|i: int, j: int|
            0 <= i < 6 && 0 <= j < 6 ==> #[trigger] joined.matrix.cells@[i]@[j] == sa.matrix.cells@[i]@[j]
                + sb.matrix.cells@[i]@[j],
{
    assert forall|k: Seq<char>| #[trigger] tallied_text(joined.tags_by_category@, k) == tallied_text(
        sa.tags_by_category@,
        k,
    ) + tallied_text(sb.tags_by_category@, k) by {
        lemma_tallied_text(joined.tags_by_category@, category_counts(a + b), k);
        lemma_tallied_text(sa.tags_by_category@, category_counts(a), k);
        lemma_tallied_text(sb.tags_by_category@, category_counts(b), k);
        law_tally_of_joined_tags(a, b, Measure::InCategory(k));
    }
    assert forall|q: u8| #[trigger] tallied_quarter(joined.tags_by_quarter@, q) == tallied_quarter(
        sa.tags_by_quarter@,
        q,
    ) + tallied_quarter(sb.tags_by_quarter@, q) by {
        lemma_tallied_quarter(joined.tags_by_quarter@, quarter_counts(a + b), q);
        lemma_tallied_quarter(sa.tags_by_quarter@, quarter_counts(a), q);
        lemma_tallied_quarter(sb.tags_by_quarter@, quarter_counts(b), q);
        law_tally_of_joined_tags(a, b, Measure::InQuarter(q));
    }
    assert forall|k: Seq<char>| #[trigger] tallied_text(joined.court_zone_distribution@, k) == tallied_text(
        sa.court_zone_distribution@,
        k,
    ) + tallied_text(sb.court_zone_distribution@, k) by {
        lemma_tallied_text(joined.court_zone_distribution@, zone_counts(a + b), k);
        lemma_tallied_text(sa.court_zone_distribution@, zone_counts(a), k);
        lemma_tallied_text(sb.court_zone_distribution@, zone_counts(b), k);
        law_tally_of_joined_tags(a, b, Measure::InZone(k));
    }
    law_tally_of_joined_tags(a, b, Measure::WithPossession(Possession::Home));
    law_tally_of_joined_tags(a, b, Measure::WithPossession(Possession::Away));
    law_tally_of_joined_tags(a, b, Measure::WithShot(ShotResult::Made));
    law_tally_of_joined_tags(a, b, Measure::WithShot(ShotResult::Missed));
    law_tally_of_joined_tags(a, b, Measure::WithShot(ShotResult::Blocked));
    law_tally_of_joined_tags(a, b, Measure::WithShot(ShotResult::Fouled));
    assert forall|i: int, j: int| 0 <= i < 6 && 0 <= j < 6 implies #[trigger] joined.matrix.cells@[i]@[j]
        == sa.matrix.cells@[i]@[j] + sb.matrix.cells@[i]@[j] by {
        law_tally_of_joined_tags(a, b, Measure::InCategory(matrix_labels()[i]));
    }
}

/// Tags are tallied under their zone's name exactly when they lie in that
/// zone: no tag of another zone is counted under it.
pub proof fn law_zone_name_counts_that_zone(tags: Seq<Tag>, zone: CourtZone)
    ensures
        tally(tags, Measure::InZone(zone_name(zone))) == tally(tags, Measure::AtZone(zone)),
    decreases tags.len(),
{
    if tags.len() > 0 {
        law_zone_name_counts_that_zone(tags.drop_last(), zone);
        if let Some(other) = tags.last().court_zone {
            if other != zone {
                law_zone_names_distinct(other, zone);
            }
        }
    }
}

/// The court-zone distribution of a game's statistics holds, for every
/// zone, exactly the number of tags in that zone, under that zone's name;
/// distinct zones are never merged under one key.
pub proof fn law_zone_distribution_counts_each_zone(stats: GameStats, tags: Seq<Tag>, zone: CourtZone)
    requires
        is_stats_of(stats, tags),
    ensures
        tallied_text(stats.court_zone_distribution@, zone_name(zone)) == tally(tags, Measure::AtZone(zone)),
        forall|other: CourtZone| other != zone ==> #[trigger] zone_name(other) != zone_name(zone),
{
    lemma_tallied_text(stats.court_zone_distribution@, zone_counts(tags), zone_name(zone));
    law_zone_name_counts_that_zone(tags, zone);
    assert forall|other: CourtZone| other != zone implies #[trigger] zone_name(other) != zone_name(zone) by {
        law_zone_names_distinct(other, zone);
    }
}

} // verus!
