//! Tags: the `tag:` prefix, adding and removing tags on a device's tag
//! list, and the colored rendering of a tag list.

use vstd::prelude::*;

use crate::models::strings_view;
use crate::style::{cyan, cyan_code, dim_code, dimmed, styled};
use crate::text::str_eq;

verus! {

/// The prefix that every Tailscale tag carries.
pub open spec fn tag_prefix() -> Seq<char> {
    seq!['t', 'a', 'g', ':']
}

/// `s` starts with `prefix`.
pub open spec fn starts_with(s: Seq<char>, prefix: Seq<char>) -> bool {
    prefix.len() <= s.len() && s.take(prefix.len() as int) == prefix
}

/// A tag with the `tag:` prefix, added when it is missing.
pub open spec fn normalized_tag(tag: Seq<char>) -> Seq<char> {
    if starts_with(tag, tag_prefix()) {
        tag
    } else {
        tag_prefix() + tag
    }
}

/// Adds the `tag:` prefix to a tag that lacks it; `server` becomes
/// `tag:server` and `tag:prod` stays as it is.
pub fn normalize_tag(tag: &str) -> (r: String)
    ensures
        r@ == normalized_tag(tag@),
{
    let prefix = "tag:";
    proof {
        reveal_strlit("tag:");
    }
    assert(prefix@ == tag_prefix());
    let n = tag.unicode_len();
    let mut has_prefix = n >= 4;
    let mut i: usize = 0;
    while has_prefix && i < 4
        invariant
            n == tag@.len(),
            prefix@ == tag_prefix(),
            i <= 4,
            has_prefix ==> n >= 4,
            has_prefix == (n >= 4 && forall|k: int| 0 <= k < i ==> tag@[k] == tag_prefix()[k]),
        decreases 4 - i,
    {
        if tag.get_char(i) != prefix.get_char(i) {
            has_prefix = false;
        }
        i += 1;
    }
    if has_prefix {
        assert(tag@.take(4) =~= tag_prefix());
        String::from_str(tag)
    } else {
        assert(!starts_with(tag@, tag_prefix())) by {
            if n >= 4 && tag@.take(4) == tag_prefix() {
                assert forall|k: int| 0 <= k < i implies tag@[k] == tag_prefix()[k] by {
                    assert(tag@.take(4)[k] == tag@[k]);
                }
            }
        }
        String::from_str(prefix).concat(tag)
    }
}

/// Every tag of a list, normalized.
pub open spec fn normalized_tags(tags: Seq<Seq<char>>) -> Seq<Seq<char>> {
    tags.map_values(|t: Seq<char>| normalized_tag(t))
}

/// A tag that already begins with `tag:` is kept as it is; any other tag
/// gets `tag:` put in front of it. Normalizing a list does so to each tag,
/// keeping their number and order.
pub proof fn law_normalized_tags(tags: Seq<Seq<char>>)
    ensures
        normalized_tags(tags).len() == tags.len(),
        forall|k: int|
            0 <= k < tags.len() ==> #[trigger] normalized_tags(tags)[k] == if tags[k].len() >= 4
                && tags[k].take(4) == seq!['t', 'a', 'g', ':'] {
                tags[k]
            } else {
                seq!['t', 'a', 'g', ':'] + tags[k]
            },
{
}

/// Normalizes each tag of a list, keeping their order.
pub fn normalize_tags(tags: &[String]) -> (r: Vec<String>)
    ensures
        strings_view(r@) == normalized_tags(strings_view(tags@)),
{
    let mut r: Vec<String> = Vec::new();
    let mut i: usize = 0;
    while i < tags.len()
        invariant
            i <= tags@.len(),
            r@.len() == i,
            forall|k: int| 0 <= k < i ==> #[trigger] r@[k]@ == normalized_tag(tags@[k]@),
        decreases tags@.len() - i,
    {
        r.push(normalize_tag(tags[i].as_str()));
        i += 1;
    }
    assert(strings_view(r@) =~= normalized_tags(strings_view(tags@)));
    r
}

/// Normalizing a tag twice is the same as normalizing it once, and a
/// normalized tag always carries the `tag:` prefix.
pub proof fn law_normalize_tag_idempotent(tag: Seq<char>)
    ensures
        normalized_tag(normalized_tag(tag)) == normalized_tag(tag),
        starts_with(normalized_tag(tag), tag_prefix()),
{
    if !starts_with(tag, tag_prefix()) {
        let t = tag_prefix() + tag;
        assert(t.take(4) =~= tag_prefix());
    }
}

// ---------------------------------------------------------------------
// Adding and removing tags
// ---------------------------------------------------------------------

/// `existing` followed by each tag of `added` that is not yet present, in
/// order (a tag repeated in `added` is added once).
pub open spec fn tags_with(existing: Seq<Seq<char>>, added: Seq<Seq<char>>) -> Seq<Seq<char>>
    decreases added.len(),
{
    if added.len() == 0 {
        existing
    } else {
        let prev = tags_with(existing, added.drop_last());
        if prev.contains(added.last()) {
            prev
        } else {
            prev.push(added.last())
        }
    }
}

/// The tags of `existing` that are not in `removed`, in their order.
pub open spec fn tags_without(existing: Seq<Seq<char>>, removed: Seq<Seq<char>>) -> Seq<Seq<char>>
    decreases existing.len(),
{
    if existing.len() == 0 {
        seq![]
    } else {
        let rest = tags_without(existing.drop_last(), removed);
        if removed.contains(existing.last()) {
            rest
        } else {
            rest.push(existing.last())
        }
    }
}

fn contains_tag(tags: &Vec<String>, tag: &str) -> (r: bool)
    ensures
        r == strings_view(tags@).contains(tag@),
{
    let ghost ts = strings_view(tags@);
    let mut i: usize = 0;
    while i < tags.len()
        invariant
            ts == strings_view(tags@),
            i <= tags@.len(),
            forall|j: int| 0 <= j < i ==> ts[j] != tag@,
        decreases tags@.len() - i,
    {
        if str_eq(tags[i].as_str(), tag) {
            assert(ts[i as int] == tag@);
            return true;
        }
        i += 1;
    }
    false
}

fn slice_contains_tag(tags: &[String], tag: &str) -> (r: bool)
    ensures
        r == strings_view(tags@).contains(tag@),
{
    let ghost ts = strings_view(tags@);
    let mut i: usize = 0;
    while i < tags.len()
        invariant
            ts == strings_view(tags@),
            i <= tags@.len(),
            forall|j: int| 0 <= j < i ==> ts[j] != tag@,
        decreases tags@.len() - i,
    {
        if str_eq(tags[i].as_str(), tag) {
            assert(ts[i as int] == tag@);
            return true;
        }
        i += 1;
    }
    false
}

/// The tag list of a device after adding `added`: its tags, then each new
/// tag not already present.
pub fn add_tags(existing: &[String], added: &[String]) -> (r: Vec<String>)
    ensures
        strings_view(r@) == tags_with(strings_view(existing@), strings_view(added@)),
{
    let ghost ex = strings_view(existing@);
    let ghost ad = strings_view(added@);
    let mut r: Vec<String> = Vec::new();
    let mut i: usize = 0;
    while i < existing.len()
        invariant
            i <= existing@.len(),
            r@.len() == i,
            forall|k: int| 0 <= k < i ==> #[trigger] r@[k]@ == existing@[k]@,
        decreases existing@.len() - i,
    {
        r.push(existing[i].clone());
        i += 1;
    }
    assert(strings_view(r@) =~= ex);
    assert(ad.take(0) =~= Seq::<Seq<char>>::empty());
    let mut j: usize = 0;
    while j < added.len()
        invariant
            ex == strings_view(existing@),
            ad == strings_view(added@),
            j <= added@.len(),
            strings_view(r@) == tags_with(ex, ad.take(j as int)),
        decreases added@.len() - j,
    {
        assert(ad.take(j + 1).drop_last() =~= ad.take(j as int));
        assert(ad.take(j + 1).last() == added@[j as int]@);
        if !contains_tag(&r, added[j].as_str()) {
            r.push(added[j].clone());
        }
        j += 1;
        assert(strings_view(r@) =~= tags_with(ex, ad.take(j as int)));
    }
    assert(ad.take(added@.len() as int) =~= ad);
    r
}

/// The tag list of a device after removing `removed`: its tags that are
/// not among them, in their order.
pub fn remove_tags(existing: &[String], removed: &[String]) -> (r: Vec<String>)
    ensures
        strings_view(r@) == tags_without(strings_view(existing@), strings_view(removed@)),
{
    let ghost ex = strings_view(existing@);
    let ghost rm = strings_view(removed@);
    let mut r: Vec<String> = Vec::new();
    let mut i: usize = 0;
    while i < existing.len()
        invariant
            ex == strings_view(existing@),
            rm == strings_view(removed@),
            i <= existing@.len(),
            strings_view(r@) == tags_without(ex.take(i as int), rm),
        decreases existing@.len() - i,
    {
        assert(ex.take(i + 1).drop_last() =~= ex.take(i as int));
        assert(ex.take(i + 1).last() == existing@[i as int]@);
        if !slice_contains_tag(removed, existing[i].as_str()) {
            r.push(existing[i].clone());
        }
        i += 1;
        assert(strings_view(r@) =~= tags_without(ex.take(i as int), rm));
    }
    assert(ex.take(existing@.len() as int) =~= ex);
    r
}

// ---------------------------------------------------------------------
// Laws of tag arithmetic
// ---------------------------------------------------------------------

proof fn lemma_tags_with(existing: Seq<Seq<char>>, added: Seq<Seq<char>>)
    ensures
        tags_with(existing, added).len() >= existing.len(),
        tags_with(existing, added).take(existing.len() as int) == existing,
        forall|k: int| 0 <= k < added.len() ==> tags_with(existing, added).contains(#[trigger] added[k]),
        forall|k: int|
            0 <= k < tags_with(existing, added).len() ==> existing.contains(
                #[trigger] tags_with(existing, added)[k],
            ) || added.contains(tags_with(existing, added)[k]),
        existing.no_duplicates() ==> tags_with(existing, added).no_duplicates(),
    decreases added.len(),
{
    if added.len() == 0 {
        assert(existing.take(existing.len() as int) =~= existing);
    } else {
        let front = added.drop_last();
        lemma_tags_with(existing, front);
        let prev = tags_with(existing, front);
        let r = tags_with(existing, added);
        if !prev.contains(added.last()) {
            assert(r.take(existing.len() as int) =~= prev.take(existing.len() as int));
            assert(r[r.len() - 1] == added.last());
        }
        assert forall|k: int| 0 <= k < added.len() implies r.contains(#[trigger] added[k]) by {
            if k < added.len() - 1 {
                assert(front[k] == added[k]);
                let w = choose|w: int| 0 <= w < prev.len() && prev[w] == added[k];
                assert(r[w] == prev[w]);
            } else if prev.contains(added.last()) {
            } else {
                assert(r[r.len() - 1] == added[k]);
            }
        }
        assert forall|k: int| 0 <= k < r.len() implies existing.contains(#[trigger] r[k]) || added.contains(
            r[k],
        ) by {
            if k < prev.len() {
                assert(r[k] == prev[k]);
                if front.contains(prev[k]) {
                    let w = choose|w: int| 0 <= w < front.len() && front[w] == prev[k];
                    assert(added[w] == prev[k]);
                }
            } else {
                assert(added[added.len() - 1] == r[k]);
            }
        }
    }
}

proof fn lemma_tags_without(existing: Seq<Seq<char>>, removed: Seq<Seq<char>>)
    ensures
        forall|k: int|
            0 <= k < tags_without(existing, removed).len() ==> existing.contains(
                #[trigger] tags_without(existing, removed)[k],
            ) && !removed.contains(tags_without(existing, removed)[k]),
        forall|k: int|
            0 <= k < existing.len() && !removed.contains(existing[k]) ==> tags_without(
                existing,
                removed,
            ).contains(#[trigger] existing[k]),
    decreases existing.len(),
{
    if existing.len() > 0 {
        let front = existing.drop_last();
        lemma_tags_without(front, removed);
        let rest = tags_without(front, removed);
        let r = tags_without(existing, removed);
        assert forall|k: int| 0 <= k < r.len() implies existing.contains(#[trigger] r[k])
            && !removed.contains(r[k]) by {
            if k < rest.len() {
                assert(r[k] == rest[k]);
                let w = choose|w: int| 0 <= w < front.len() && front[w] == rest[k];
                assert(existing[w] == rest[k]);
            } else {
                assert(existing[existing.len() - 1] == r[k]);
            }
        }
        assert forall|k: int| 0 <= k < existing.len() && !removed.contains(existing[k]) implies r.contains(
            #[trigger] existing[k],
        ) by {
            if k < existing.len() - 1 {
                assert(front[k] == existing[k]);
                let w = choose|w: int| 0 <= w < rest.len() && rest[w] == existing[k];
                assert(r[w] == rest[w]);
            } else {
                assert(r[r.len() - 1] == existing[k]);
            }
        }
    }
}

/// Adding tags keeps the device's tags first and in order, leaves every
/// added tag present, brings in nothing else, and repeats no tag when the
/// device's tags had no repetition.
pub proof fn law_add_tags(existing: Seq<Seq<char>>, added: Seq<Seq<char>>)
    ensures
        tags_with(existing, added).take(existing.len() as int) == existing,
        forall|k: int| 0 <= k < added.len() ==> tags_with(existing, added).contains(#[trigger] added[k]),
        forall|k: int|
            0 <= k < tags_with(existing, added).len() ==> existing.contains(
                #[trigger] tags_with(existing, added)[k],
            ) || added.contains(tags_with(existing, added)[k]),
        existing.no_duplicates() ==> tags_with(existing, added).no_duplicates(),
{
    lemma_tags_with(existing, added);
}

/// Adding the same tags a second time changes nothing.
pub proof fn law_add_tags_idempotent(existing: Seq<Seq<char>>, added: Seq<Seq<char>>)
    ensures
        tags_with(tags_with(existing, added), added) == tags_with(existing, added),
{
    lemma_tags_with(existing, added);
    lemma_with_all_present(tags_with(existing, added), added);
}

proof fn lemma_with_all_present(existing: Seq<Seq<char>>, added: Seq<Seq<char>>)
    requires
        forall|k: int| 0 <= k < added.len() ==> existing.contains(#[trigger] added[k]),
    ensures
        tags_with(existing, added) == existing,
    decreases added.len(),
{
    if added.len() > 0 {
        assert forall|k: int| 0 <= k < added.drop_last().len() implies existing.contains(
            #[trigger] added.drop_last()[k],
        ) by {
            assert(added.drop_last()[k] == added[k]);
        }
        lemma_with_all_present(existing, added.drop_last());
        assert(existing.contains(added[added.len() - 1]));
    }
}

/// Removing tags leaves none of them, keeps every other tag of the device,
/// and brings in nothing new.
pub proof fn law_remove_tags(existing: Seq<Seq<char>>, removed: Seq<Seq<char>>)
    ensures
        forall|k: int|
            0 <= k < tags_without(existing, removed).len() ==> existing.contains(
                #[trigger] tags_without(existing, removed)[k],
            ) && !removed.contains(tags_without(existing, removed)[k]),
        forall|k: int|
            0 <= k < existing.len() && !removed.contains(existing[k]) ==> tags_without(
                existing,
                removed,
            ).contains(#[trigger] existing[k]),
{
    lemma_tags_without(existing, removed);
}

/// Removing tags that were just added gives the same list as removing
/// them from the tags the device had before.
pub proof fn law_remove_undoes_add(existing: Seq<Seq<char>>, tags: Seq<Seq<char>>)
    ensures
        tags_without(tags_with(existing, tags), tags) == tags_without(existing, tags),
{
    lemma_without_prefix(existing, tags);
}

proof fn lemma_without_prefix(existing: Seq<Seq<char>>, tags: Seq<Seq<char>>)
    ensures
        tags_without(tags_with(existing, tags), tags) == tags_without(existing, tags),
{
    lemma_tags_with(existing, tags);
    let w = tags_with(existing, tags);
    let extra = w.skip(existing.len() as int);
    assert(w =~= existing + extra);
    assert forall|k: int| 0 <= k < extra.len() implies tags.contains(#[trigger] extra[k]) by {
        assert(extra[k] == w[k + existing.len()]);
        if existing.contains(w[k + existing.len()]) {
            // already present before: it would not have been added
            lemma_with_added_fresh(existing, tags, k + existing.len());
        }
    }
    lemma_without_append_removed(existing, extra, tags);
}

proof fn lemma_with_added_fresh(existing: Seq<Seq<char>>, tags: Seq<Seq<char>>, k: int)
    requires
        existing.len() <= k < tags_with(existing, tags).len(),
    ensures
        tags.contains(tags_with(existing, tags)[k]),
    decreases tags.len(),
{
    let front = tags.drop_last();
    lemma_tags_with(existing, front);
    let prev = tags_with(existing, front);
    if prev.contains(tags.last()) {
        lemma_with_added_fresh(existing, front, k);
        let w = choose|w: int| 0 <= w < front.len() && front[w] == prev[k];
        assert(tags[w] == prev[k]);
    } else if k < prev.len() {
        lemma_with_added_fresh(existing, front, k);
        let w = choose|w: int| 0 <= w < front.len() && front[w] == prev[k];
        assert(tags[w] == prev[k]);
    } else {
        assert(tags[tags.len() - 1] == tags.last());
    }
}

proof fn lemma_without_append_removed(
    existing: Seq<Seq<char>>,
    extra: Seq<Seq<char>>,
    removed: Seq<Seq<char>>,
)
    requires
        forall|k: int| 0 <= k < extra.len() ==> removed.contains(#[trigger] extra[k]),
    ensures
        tags_without(existing + extra, removed) == tags_without(existing, removed),
    decreases extra.len(),
{
    if extra.len() > 0 {
        let front = extra.drop_last();
        assert forall|k: int| 0 <= k < front.len() implies removed.contains(#[trigger] front[k]) by {
            assert(front[k] == extra[k]);
        }
        lemma_without_append_removed(existing, front, removed);
        assert((existing + extra).drop_last() =~= existing + front);
        assert((existing + extra).last() == extra[extra.len() - 1]);
    }
}

// ---------------------------------------------------------------------
// Rendering a tag list
// ---------------------------------------------------------------------

/// The texts of `parts` joined with `sep` between them.
pub open spec fn joined(parts: Seq<Seq<char>>, sep: Seq<char>) -> Seq<char>
    decreases parts.len(),
{
    if parts.len() == 0 {
        seq![]
    } else if parts.len() == 1 {
        parts[0]
    } else {
        joined(parts.drop_last(), sep) + sep + parts.last()
    }
}

/// A rendering `r` of the tag list `tags`: a dimmed `none` for an empty
/// list, else each tag in cyan, joined by `, `.
pub open spec fn renders_tags(r: Seq<char>, tags: Seq<Seq<char>>) -> bool {
    if tags.len() == 0 {
        styled(r, seq!['n', 'o', 'n', 'e'], dim_code())
    } else {
        exists|parts: Seq<Seq<char>>|
            parts.len() == tags.len() && (forall|k: int|
                0 <= k < tags.len() ==> styled(#[trigger] parts[k], tags[k], cyan_code())) && r
                == joined(parts, seq![',', ' '])
    }
}

/// Renders a tag list for the terminal: the tags in cyan separated by
/// `, `, or a dimmed `none` when there are no tags.
pub fn format_tags(tags: &[String]) -> (r: String)
    ensures
        renders_tags(r@, strings_view(tags@)),
{
    let ghost ts = strings_view(tags@);
    if tags.len() == 0 {
        let none = "none";
        proof {
            reveal_strlit("none");
        }
        assert(none@ == seq!['n', 'o', 'n', 'e']);
        return dimmed(none);
    }
    let sep = ", ";
    proof {
        reveal_strlit(", ");
    }
    assert(sep@ == seq![',', ' ']);
    let mut r = cyan(tags[0].as_str());
    let ghost mut parts: Seq<Seq<char>> = seq![r@];
    let mut i: usize = 1;
    while i < tags.len()
        invariant
            ts == strings_view(tags@),
            sep@ == seq![',', ' '],
            1 <= i <= tags@.len(),
            parts.len() == i,
            forall|k: int| 0 <= k < i ==> styled(#[trigger] parts[k], ts[k], cyan_code()),
            r@ == joined(parts, seq![',', ' ']),
        decreases tags@.len() - i,
    {
        let piece = cyan(tags[i].as_str());
        r.append(sep);
        r.append(piece.as_str());
        proof {
            let old_parts = parts;
            parts = parts.push(piece@);
            assert(parts.drop_last() =~= old_parts);
        }
        i += 1;
    }
    assert(r@ == joined(parts, seq![',', ' ']));
    r
}

/// Joins the strings of `parts` with `sep` between them.
pub fn join_strings(parts: &[String], sep: &str) -> (r: String)
    ensures
        r@ == joined(strings_view(parts@), sep@),
{
    let ghost ps = strings_view(parts@);
    if parts.len() == 0 {
        return String::new();
    }
    let mut r = parts[0].clone();
    let mut i: usize = 1;
    assert(ps.take(1).len() == 1);
    while i < parts.len()
        invariant
            ps == strings_view(parts@),
            1 <= i <= parts@.len(),
            r@ == joined(ps.take(i as int), sep@),
        decreases parts@.len() - i,
    {
        r.append(sep);
        r.append(parts[i].as_str());
        assert(ps.take(i + 1).drop_last() =~= ps.take(i as int));
        assert(ps.take(i + 1).last() == parts@[i as int]@);
        i += 1;
    }
    assert(ps.take(parts@.len() as int) =~= ps);
    r
}

} // verus!
